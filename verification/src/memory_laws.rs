//! What holds of the memory worker as a whole.

use crate::home::{lying_in_is_leading_on, rebased, MemoryHomes};
use crate::memory_worker::{
    locks_home, worker_expects, worker_follows, MemoryCommand, WorkerAction, WorkerEvent,
    WorkerState,
};
use crate::report::{
    decimal, json_bool, object_text, report_members, report_text_is_documented,
};
use vstd::prelude::*;
use vstd::utf8::encode_utf8;

verus! {

/// The action works on memories.
pub open spec fn touches_memory(action: WorkerAction) -> bool {
    action is RunPipeline || action is ClearDatabase || action is ClearRoots
}

/// The action releases the locks.
pub open spec fn releases_locks(action: WorkerAction) -> bool {
    action is ReleaseAndPrint || action is ReleaseAndFinish || action is FailUnchanged
}

/// How far a command has come.
pub open spec fn worker_progress(state: WorkerState) -> nat {
    match state {
        WorkerState::ParsingOverrides(_) => 0,
        WorkerState::LoadingConfig(_) => 1,
        WorkerState::ResolvingHome(..) => 2,
        WorkerState::AwaitingMutex(..) => 3,
        WorkerState::AwaitingFileLock(..) => 4,
        WorkerState::RunningPipeline(_) => 5,
        WorkerState::ClearingDatabase(_) => 5,
        WorkerState::ClearingRoots(_) => 6,
        WorkerState::Printing => 6,
        WorkerState::Stopped => 7,
    }
}

/// A command in which one event follows another, from its first state on:
/// `states[i]` is the state before `events[i]`, and `actions[i]` what is done
/// after it.
pub open spec fn is_command_run(
    command: MemoryCommand,
    states: Seq<WorkerState>,
    events: Seq<WorkerEvent>,
    actions: Seq<WorkerAction>,
) -> bool {
    &&& states.len() == events.len() + 1
    &&& actions.len() == events.len()
    &&& states[0] == WorkerState::ParsingOverrides(command)
    &&& forall|i: int|
        #![trigger events[i]]
        0 <= i < events.len() ==> worker_follows(states[i], events[i], states[i + 1], actions[i])
}

/// Every event that is waited for brings a command further, so that it ends
/// after seven events at the latest; once ended it waits for none.
pub proof fn command_comes_to_an_end(
    state: WorkerState,
    event: WorkerEvent,
    next: WorkerState,
    action: WorkerAction,
)
    requires
        worker_follows(state, event, next, action),
    ensures
        worker_progress(state) < worker_progress(next) <= 7,
        !worker_expects(WorkerState::Stopped, event),
{
}

/// Before it ends, a command has come as far as events have happened.
proof fn command_position(
    command: MemoryCommand,
    states: Seq<WorkerState>,
    events: Seq<WorkerEvent>,
    actions: Seq<WorkerAction>,
    i: int,
)
    requires
        is_command_run(command, states, events, actions),
        0 <= i < states.len(),
        states[i] != WorkerState::Stopped,
    ensures
        worker_progress(states[i]) == i,
        forall|j: int| 0 <= j < i ==> #[trigger] states[j] != WorkerState::Stopped,
    decreases i,
{
    if i > 0 {
        assert(worker_follows(states[i - 1], events[i - 1], states[i], actions[i - 1]));
        command_position(command, states, events, actions, i - 1);
    }
}

/// What has happened by the time that a command waits for the end of its work.
proof fn command_history(
    command: MemoryCommand,
    states: Seq<WorkerState>,
    events: Seq<WorkerEvent>,
    actions: Seq<WorkerAction>,
)
    requires
        is_command_run(command, states, events, actions),
        states.len() > 5,
        states[5] != WorkerState::Stopped,
    ensures
        events[1] is ConfigLoaded,
        events[2] is HomeResolved,
        events[3] is MutexAcquired,
        events[4] is FileLocked,
        states[4] matches WorkerState::AwaitingFileLock(kept, homes) && kept == command
            && homes.codex_home@ == events[2]->HomeResolved_0@ && homes.sqlite_home@ == rebased(
            events[1]->ConfigLoaded_0.sqlite_home@,
            events[1]->ConfigLoaded_0.codex_home@,
            events[2]->HomeResolved_0@,
        ),
        actions[2] matches WorkerAction::AcquireMutex(home, _) && home@
            == events[2]->HomeResolved_0@,
        actions[3] matches WorkerAction::LockFile(request) && locks_home(
            request,
            events[2]->HomeResolved_0@,
        ),
        forall|j: int| 0 <= j < 4 ==> !touches_memory(#[trigger] actions[j]),
        forall|j: int| 0 <= j < 5 ==> !releases_locks(#[trigger] actions[j]),
{
    command_position(command, states, events, actions, 5);
    assert(worker_follows(states[0], events[0], states[1], actions[0]));
    assert(worker_follows(states[1], events[1], states[2], actions[1]));
    assert(worker_follows(states[2], events[2], states[3], actions[2]));
    assert(worker_follows(states[3], events[3], states[4], actions[3]));
    assert(worker_follows(states[4], events[4], states[5], actions[4]));
    assert(states[1] != WorkerState::Stopped);
    assert(states[2] != WorkerState::Stopped);
    assert(states[3] != WorkerState::Stopped);
    assert(states[4] != WorkerState::Stopped);
    assert forall|j: int| 0 <= j < 4 implies !touches_memory(#[trigger] actions[j]) by {
        assert(j == 0 || j == 1 || j == 2 || j == 3);
    }
    assert forall|j: int| 0 <= j < 5 implies !releases_locks(#[trigger] actions[j]) by {
        assert(j == 0 || j == 1 || j == 2 || j == 3 || j == 4);
    }
}

/// Memories are worked on under both locks only, and the home worked on is the
/// one that is locked. Where an action touches memories, the home was resolved
/// before, its mutex was asked for and acquired, its lock file was asked for
/// and locked, in this order, and nothing has released the locks since; the
/// action works on that resolved home, and on the database that belongs to it.
pub proof fn memories_are_touched_under_the_locks_of_their_home(
    command: MemoryCommand,
    states: Seq<WorkerState>,
    events: Seq<WorkerEvent>,
    actions: Seq<WorkerAction>,
    i: int,
)
    requires
        is_command_run(command, states, events, actions),
        0 <= i < actions.len(),
        touches_memory(actions[i]),
    ensures
        4 <= i,
        events[1] is ConfigLoaded,
        events[2] is HomeResolved,
        events[3] is MutexAcquired,
        events[4] is FileLocked,
        actions[2] matches WorkerAction::AcquireMutex(home, _) && home@
            == events[2]->HomeResolved_0@,
        actions[3] matches WorkerAction::LockFile(request) && locks_home(
            request,
            events[2]->HomeResolved_0@,
        ),
        forall|j: int| 0 <= j <= i ==> !releases_locks(#[trigger] actions[j]),
        actions[i] matches WorkerAction::RunPipeline(homes) ==> homes.codex_home@
            == events[2]->HomeResolved_0@ && homes.sqlite_home@ == rebased(
            events[1]->ConfigLoaded_0.sqlite_home@,
            events[1]->ConfigLoaded_0.codex_home@,
            events[2]->HomeResolved_0@,
        ),
        actions[i] matches WorkerAction::ClearDatabase(home) ==> home@ == rebased(
            events[1]->ConfigLoaded_0.sqlite_home@,
            events[1]->ConfigLoaded_0.codex_home@,
            events[2]->HomeResolved_0@,
        ),
        actions[i] matches WorkerAction::ClearRoots(home) ==> home@
            == events[2]->HomeResolved_0@,
{
    assert(worker_follows(states[i], events[i], states[i + 1], actions[i]));
    command_position(command, states, events, actions, i);
    command_position(command, states, events, actions, i + 1);
    assert(i == 4 || i == 5);
    assert(states[5] != WorkerState::Stopped);
    command_history(command, states, events, actions);
    assert(worker_follows(states[4], events[4], states[5], actions[4]));
}

/// A command does what it was asked to: running never clears, and clearing
/// never runs the pipeline.
pub proof fn command_keeps_to_its_kind(
    command: MemoryCommand,
    states: Seq<WorkerState>,
    events: Seq<WorkerEvent>,
    actions: Seq<WorkerAction>,
    i: int,
)
    requires
        is_command_run(command, states, events, actions),
        0 <= i < actions.len(),
    ensures
        actions[i] is RunPipeline ==> command == MemoryCommand::Run,
        actions[i] is ClearDatabase || actions[i] is ClearRoots ==> command
            == MemoryCommand::Clear,
{
    if touches_memory(actions[i]) {
        memories_are_touched_under_the_locks_of_their_home(command, states, events, actions, i);
        assert(worker_follows(states[i], events[i], states[i + 1], actions[i]));
        command_position(command, states, events, actions, i);
        command_position(command, states, events, actions, i + 1);
        assert(states[5] != WorkerState::Stopped);
        command_history(command, states, events, actions);
        assert(worker_follows(states[4], events[4], states[5], actions[4]));
    }
}

/// A clear that has ended without error has cleared the database and then the
/// memory directories.
pub proof fn finished_clear_has_cleared_everything(
    command: MemoryCommand,
    states: Seq<WorkerState>,
    events: Seq<WorkerEvent>,
    actions: Seq<WorkerAction>,
)
    requires
        is_command_run(command, states, events, actions),
        actions.contains(WorkerAction::ReleaseAndFinish),
    ensures
        command == MemoryCommand::Clear,
        events.len() == 7,
        actions[4] is ClearDatabase,
        events[5] is DatabaseCleared,
        actions[5] is ClearRoots,
        events[6] is RootsCleared,
        actions[6] is ReleaseAndFinish,
{
    let last = choose|i: int|
        0 <= i < actions.len() && actions[i] == WorkerAction::ReleaseAndFinish;
    assert(worker_follows(states[last], events[last], states[last + 1], actions[last]));
    command_position(command, states, events, actions, last);
    assert(last == 6);
    assert(states[5] != WorkerState::Stopped);
    command_history(command, states, events, actions);
    assert(worker_follows(states[4], events[4], states[5], actions[4]));
    assert(worker_follows(states[5], events[5], states[6], actions[5]));
    if events.len() > 7 {
        assert(worker_follows(states[7], events[7], states[8], actions[7]));
    }
}

/// A run that has ended without error has printed the line of the pipeline's
/// report, after the locks were released.
pub proof fn finished_run_has_printed_its_report(
    command: MemoryCommand,
    states: Seq<WorkerState>,
    events: Seq<WorkerEvent>,
    actions: Seq<WorkerAction>,
)
    requires
        is_command_run(command, states, events, actions),
        actions.contains(WorkerAction::Finish),
    ensures
        command == MemoryCommand::Run,
        events.len() == 7,
        actions[4] is RunPipeline,
        events[5] is PipelineFinished,
        actions[5] matches WorkerAction::ReleaseAndPrint(line) && line@ == object_text(
            report_members(events[5]->PipelineFinished_0),
        ),
        events[6] is LinePrinted,
        actions[6] is Finish,
{
    let last = choose|i: int| 0 <= i < actions.len() && actions[i] == WorkerAction::Finish;
    assert(worker_follows(states[last], events[last], states[last + 1], actions[last]));
    command_position(command, states, events, actions, last);
    assert(last == 6);
    assert(states[5] != WorkerState::Stopped);
    command_history(command, states, events, actions);
    assert(worker_follows(states[4], events[4], states[5], actions[4]));
    assert(worker_follows(states[5], events[5], states[6], actions[5]));
    if events.len() > 7 {
        assert(worker_follows(states[7], events[7], states[8], actions[7]));
    }
}

/// `place` is where the database belongs once the configured home is known to be
/// `canonical`: a database in the configured home moves along, and any other
/// stays.
pub open spec fn belongs_at(
    place: Seq<Seq<u8>>,
    homes: MemoryHomes,
    canonical: Seq<Seq<u8>>,
) -> bool {
    &&& forall|below: Seq<Seq<u8>>|
        homes.sqlite_home@ == #[trigger] (homes.codex_home@ + below) ==> place == canonical + below
    &&& (forall|below: Seq<Seq<u8>>|
        homes.sqlite_home@ != #[trigger] (homes.codex_home@ + below)) ==> place
        == homes.sqlite_home@
}

/// The place that was worked out is where the database belongs.
proof fn database_is_rebased_to_where_it_belongs(homes: MemoryHomes, canonical: Seq<Seq<u8>>)
    ensures
        belongs_at(
            rebased(homes.sqlite_home@, homes.codex_home@, canonical),
            homes,
            canonical,
        ),
{
    let sqlite = homes.sqlite_home@;
    let codex = homes.codex_home@;
    lying_in_is_leading_on(sqlite, codex);
    assert forall|below: Seq<Seq<u8>>| sqlite == #[trigger] (codex + below) implies rebased(
        sqlite,
        codex,
        canonical,
    ) == canonical + below by {
        assert(sqlite.skip(codex.len() as int) =~= below);
    }
}

/// Every step of a run follows from the one before.
proof fn command_steps(
    command: MemoryCommand,
    states: Seq<WorkerState>,
    events: Seq<WorkerEvent>,
    actions: Seq<WorkerAction>,
)
    requires
        is_command_run(command, states, events, actions),
    ensures
        events.len() <= 7,
        forall|i: int|
            #![trigger actions[i]]
            0 <= i < actions.len() ==> worker_follows(
                states[i],
                events[i],
                states[i + 1],
                actions[i],
            ) && worker_progress(states[i]) == i && states[i] != WorkerState::Stopped,
{
    assert forall|i: int| #![trigger actions[i]] 0 <= i < actions.len() implies worker_follows(
        states[i],
        events[i],
        states[i + 1],
        actions[i],
    ) && worker_progress(states[i]) == i && states[i] != WorkerState::Stopped by {
        assert(worker_follows(states[i], events[i], states[i + 1], actions[i]));
        command_position(command, states, events, actions, i);
    }
    if events.len() > 7 {
        let beyond = actions[7];
    }
}

/// A command begins by its configuration. Overrides that parse are followed by
/// loading; a loaded configuration by resolving the home that it names, wherever
/// its database is. A failure of either ends the command with its own text before
/// the detail.
pub proof fn command_resolves_the_configured_home(
    command: MemoryCommand,
    states: Seq<WorkerState>,
    events: Seq<WorkerEvent>,
    actions: Seq<WorkerAction>,
)
    requires
        is_command_run(command, states, events, actions),
    ensures
        events.len() > 0 ==> match events[0] {
            WorkerEvent::OverridesParsed => actions[0] == WorkerAction::LoadConfig,
            WorkerEvent::OverridesRejected(detail) => events.len() == 1 && (
            actions[0] matches WorkerAction::Fail(message) && message@
                == "error parsing -c overrides: "@ + detail@),
            _ => false,
        },
        events.len() > 1 ==> match events[1] {
            WorkerEvent::ConfigLoaded(homes) => actions[1] matches WorkerAction::ResolveHome(home)
                && home@ == homes.codex_home@,
            WorkerEvent::ConfigRejected(detail) => events.len() == 2 && (
            actions[1] matches WorkerAction::Fail(message) && message@
                == "error loading config: "@ + detail@),
            _ => false,
        },
{
    command_steps(command, states, events, actions);
    if events.len() > 0 {
        let first = actions[0];
    }
    if events.len() > 1 {
        let second = actions[1];
    }
    if events.len() > 2 {
        let third = actions[2];
    }
}

/// The resolved home is locked. It is adopted, with the database in it exactly
/// where the configured home has it, and its mutex is asked for; then its lock
/// file, for reading and writing, created where it is missing, for its owner
/// alone. A failure ends the command with the error as it came.
pub proof fn command_locks_the_resolved_home(
    command: MemoryCommand,
    states: Seq<WorkerState>,
    events: Seq<WorkerEvent>,
    actions: Seq<WorkerAction>,
)
    requires
        is_command_run(command, states, events, actions),
    ensures
        events.len() > 2 ==> match (events[1], events[2]) {
            (
                WorkerEvent::ConfigLoaded(homes),
                WorkerEvent::HomeResolved(canonical),
            ) => actions[2] matches WorkerAction::AcquireMutex(home, moved) && home@ == canonical@
                && (moved is Some <==> exists|below: Seq<Seq<u8>>|
                homes.sqlite_home@ == #[trigger] (homes.codex_home@ + below)) && (
            moved matches Some(place) ==> belongs_at(place@, homes, canonical@)),
            (_, WorkerEvent::Failed) => events.len() == 3 && actions[2]
                == WorkerAction::FailUnchanged,
            _ => false,
        },
        events.len() > 3 ==> match events[3] {
            WorkerEvent::MutexAcquired => actions[3] matches WorkerAction::LockFile(request)
                && request.path@ == events[2]->HomeResolved_0@.push(
                encode_utf8(".memory-worker.lock"@),
            ) && request.read && request.write && request.create && request.unix_mode == 0o600,
            WorkerEvent::Failed => events.len() == 4 && actions[3] == WorkerAction::FailUnchanged,
            _ => false,
        },
{
    command_steps(command, states, events, actions);
    if events.len() > 2 {
        let first = actions[0];
        let second = actions[1];
        let third = actions[2];
        if let WorkerEvent::ConfigLoaded(homes) = events[1] {
            lying_in_is_leading_on(homes.sqlite_home@, homes.codex_home@);
            if let WorkerEvent::HomeResolved(canonical) = events[2] {
                database_is_rebased_to_where_it_belongs(homes, canonical@);
            }
        }
    }
    if events.len() > 3 {
        let fourth = actions[3];
    }
    if events.len() > 4 {
        let fifth = actions[4];
    }
}

/// Under the locks a run runs the pipeline in the resolved home, and a clear
/// clears the database that belongs to it; each as soon as the file is locked.
pub proof fn locked_command_does_its_work(
    command: MemoryCommand,
    states: Seq<WorkerState>,
    events: Seq<WorkerEvent>,
    actions: Seq<WorkerAction>,
)
    requires
        is_command_run(command, states, events, actions),
        events.len() > 4,
    ensures
        events[1] is ConfigLoaded,
        events[2] is HomeResolved,
        match (events[4], command) {
            (
                WorkerEvent::FileLocked,
                MemoryCommand::Run,
            ) => actions[4] matches WorkerAction::RunPipeline(homes) && homes.codex_home@
                == events[2]->HomeResolved_0@ && belongs_at(
                homes.sqlite_home@,
                events[1]->ConfigLoaded_0,
                events[2]->HomeResolved_0@,
            ),
            (
                WorkerEvent::FileLocked,
                MemoryCommand::Clear,
            ) => actions[4] matches WorkerAction::ClearDatabase(home) && belongs_at(
                home@,
                events[1]->ConfigLoaded_0,
                events[2]->HomeResolved_0@,
            ),
            (WorkerEvent::Failed, _) => events.len() == 5 && actions[4]
                == WorkerAction::FailUnchanged,
            _ => false,
        },
{
    command_steps(command, states, events, actions);
    let first = actions[0];
    let second = actions[1];
    let third = actions[2];
    let fourth = actions[3];
    let fifth = actions[4];
    if events.len() > 5 {
        let sixth = actions[5];
    }
    if let WorkerEvent::ConfigLoaded(homes) = events[1] {
        if let WorkerEvent::HomeResolved(canonical) = events[2] {
            database_is_rebased_to_where_it_belongs(homes, canonical@);
        }
    }
}

/// How a command ends. A finished pipeline has its report printed, as the
/// documented line, and the printed line finishes the run; a cleared database is
/// followed by the memory directories of the resolved home, and those finish the
/// clear. A failure ends the command with the error as it came.
pub proof fn command_ends_with_its_result(
    command: MemoryCommand,
    states: Seq<WorkerState>,
    events: Seq<WorkerEvent>,
    actions: Seq<WorkerAction>,
)
    requires
        is_command_run(command, states, events, actions),
    ensures
        events.len() <= 7,
        events.len() > 5 ==> match (events[5], command) {
            (
                WorkerEvent::PipelineFinished(report),
                MemoryCommand::Run,
            ) => actions[5] matches WorkerAction::ReleaseAndPrint(line) && line@
                == "{\"phase1_claimed\":"@ + decimal(report.phase1_claimed as nat)
                + ",\"phase1_succeeded\":"@ + decimal(report.phase1_succeeded as nat)
                + ",\"phase2_ran\":"@ + json_bool(report.phase2_ran) + ",\"phase2_changed\":"@
                + json_bool(report.phase2_changed) + "}"@,
            (
                WorkerEvent::DatabaseCleared,
                MemoryCommand::Clear,
            ) => actions[5] matches WorkerAction::ClearRoots(home) && home@
                == events[2]->HomeResolved_0@,
            (WorkerEvent::Failed, _) => events.len() == 6 && actions[5]
                == WorkerAction::FailUnchanged,
            _ => false,
        },
        events.len() > 6 ==> match (events[6], command) {
            (WorkerEvent::LinePrinted, MemoryCommand::Run) => actions[6] == WorkerAction::Finish,
            (WorkerEvent::RootsCleared, MemoryCommand::Clear) => actions[6]
                == WorkerAction::ReleaseAndFinish,
            (WorkerEvent::Failed, _) => actions[6] == WorkerAction::FailUnchanged,
            _ => false,
        },
{
    command_steps(command, states, events, actions);
    if events.len() > 5 {
        let first = actions[0];
        let second = actions[1];
        let third = actions[2];
        let fourth = actions[3];
        let fifth = actions[4];
        let sixth = actions[5];
        if let WorkerEvent::PipelineFinished(report) = events[5] {
            report_text_is_documented(report);
        }
    }
    if events.len() > 6 {
        let seventh = actions[6];
    }
}

/// An event that ends a command at once.
pub open spec fn worker_fails(event: WorkerEvent) -> bool {
    event is OverridesRejected || event is ConfigRejected || event is Failed
}

/// What a command waits for: the two outcomes of its next step, as long as
/// nothing has failed, and nothing after a failure or at its end.
pub proof fn command_waits_for_its_next_step(
    command: MemoryCommand,
    states: Seq<WorkerState>,
    events: Seq<WorkerEvent>,
    actions: Seq<WorkerAction>,
    event: WorkerEvent,
)
    requires
        is_command_run(command, states, events, actions),
    ensures
        ({
            let failed = events.len() > 0 && worker_fails(events.last());
            let run = command == MemoryCommand::Run;
            worker_expects(states.last(), event) == (!failed && if events.len() == 0 {
                event is OverridesParsed || event is OverridesRejected
            } else if events.len() == 1 {
                event is ConfigLoaded || event is ConfigRejected
            } else if events.len() == 2 {
                event is HomeResolved || event is Failed
            } else if events.len() == 3 {
                event is MutexAcquired || event is Failed
            } else if events.len() == 4 {
                event is FileLocked || event is Failed
            } else if events.len() == 5 {
                event is Failed || (run && event is PipelineFinished) || (!run
                    && event is DatabaseCleared)
            } else if events.len() == 6 {
                event is Failed || (run && event is LinePrinted) || (!run && event is RootsCleared)
            } else {
                false
            })
        }),
{
    command_steps(command, states, events, actions);
    if events.len() > 0 {
        let first = actions[0];
    }
    if events.len() > 1 {
        let second = actions[1];
    }
    if events.len() > 2 {
        let third = actions[2];
    }
    if events.len() > 3 {
        let fourth = actions[3];
    }
    if events.len() > 4 {
        let fifth = actions[4];
    }
    if events.len() > 5 {
        let sixth = actions[5];
    }
    if events.len() > 6 {
        let seventh = actions[6];
    }
}

} // verus!
