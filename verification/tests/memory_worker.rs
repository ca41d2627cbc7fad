use codex_acp::home::{memory_home_lock_request, HomePath, MemoryHomes};
use codex_acp::memory_worker::{
    begin_memory_command, worker_step, MemoryCommand, WorkerAction, WorkerEvent, WorkerState,
};
use codex_acp::report::PipelineReport;

fn path(names: &[&str]) -> HomePath {
    HomePath { components: names.iter().map(|name| name.as_bytes().to_vec()).collect() }
}

fn configured() -> MemoryHomes {
    MemoryHomes {
        codex_home: path(&["/", "link"]),
        sqlite_home: path(&["/", "link", "db"]),
    }
}

fn resolved() -> MemoryHomes {
    MemoryHomes {
        codex_home: path(&["/", "real"]),
        sqlite_home: path(&["/", "real", "db"]),
    }
}

fn up_to_the_locks(command: MemoryCommand) -> (WorkerState, WorkerAction) {
    let (state, action) = begin_memory_command(command);
    assert_eq!(action, WorkerAction::ParseOverrides);
    let (state, action) = worker_step(state, WorkerEvent::OverridesParsed).unwrap();
    assert_eq!(action, WorkerAction::LoadConfig);
    let (state, action) = worker_step(state, WorkerEvent::ConfigLoaded(configured())).unwrap();
    assert_eq!(action, WorkerAction::ResolveHome(path(&["/", "link"])));
    let (state, action) =
        worker_step(state, WorkerEvent::HomeResolved(path(&["/", "real"]))).unwrap();
    assert_eq!(
        action,
        WorkerAction::AcquireMutex(path(&["/", "real"]), Some(path(&["/", "real", "db"])))
    );
    let (state, action) = worker_step(state, WorkerEvent::MutexAcquired).unwrap();
    let request = memory_home_lock_request(&path(&["/", "real"]));
    assert_eq!(action, WorkerAction::LockFile(request));
    worker_step(state, WorkerEvent::FileLocked).unwrap()
}

#[test]
fn run_works_on_the_locked_home_and_prints_its_report() {
    let (state, action) = up_to_the_locks(MemoryCommand::Run);
    assert_eq!(action, WorkerAction::RunPipeline(resolved()));
    let report = PipelineReport {
        phase1_claimed: 3,
        phase1_succeeded: 2,
        phase2_ran: true,
        phase2_changed: true,
    };
    let (state, action) = worker_step(state, WorkerEvent::PipelineFinished(report)).unwrap();
    assert_eq!(
        action,
        WorkerAction::ReleaseAndPrint(
            r#"{"phase1_claimed":3,"phase1_succeeded":2,"phase2_ran":true,"phase2_changed":true}"#
                .to_string()
        )
    );
    let (state, action) = worker_step(state, WorkerEvent::LinePrinted).unwrap();
    assert_eq!(action, WorkerAction::Finish);
    assert_eq!(state, WorkerState::Stopped);
}

#[test]
fn clear_works_on_the_locked_home_and_clears_both() {
    let (state, action) = up_to_the_locks(MemoryCommand::Clear);
    assert_eq!(action, WorkerAction::ClearDatabase(path(&["/", "real", "db"])));
    let (state, action) = worker_step(state, WorkerEvent::DatabaseCleared).unwrap();
    assert_eq!(action, WorkerAction::ClearRoots(path(&["/", "real"])));
    let (state, action) = worker_step(state, WorkerEvent::RootsCleared).unwrap();
    assert_eq!(action, WorkerAction::ReleaseAndFinish);
    assert_eq!(state, WorkerState::Stopped);
}

#[test]
fn configuration_failures_have_their_own_texts() {
    let (state, _) = begin_memory_command(MemoryCommand::Clear);
    let rejected = WorkerEvent::OverridesRejected("no `=`".to_string());
    assert_eq!(
        worker_step(state, rejected),
        Some((
            WorkerState::Stopped,
            WorkerAction::Fail("error parsing -c overrides: no `=`".to_string())
        ))
    );
    let rejected = WorkerEvent::ConfigRejected("bad toml".to_string());
    assert_eq!(
        worker_step(WorkerState::LoadingConfig(MemoryCommand::Run), rejected),
        Some((
            WorkerState::Stopped,
            WorkerAction::Fail("error loading config: bad toml".to_string())
        ))
    );
}

#[test]
fn other_failures_are_passed_on_unchanged() {
    let states = [
        WorkerState::ResolvingHome(MemoryCommand::Run, configured()),
        WorkerState::AwaitingMutex(MemoryCommand::Run, resolved()),
        WorkerState::AwaitingFileLock(MemoryCommand::Clear, resolved()),
        WorkerState::RunningPipeline(resolved()),
        WorkerState::ClearingDatabase(resolved()),
        WorkerState::ClearingRoots(resolved()),
        WorkerState::Printing,
    ];
    for state in states {
        assert_eq!(
            worker_step(state, WorkerEvent::Failed),
            Some((WorkerState::Stopped, WorkerAction::FailUnchanged))
        );
    }
}

#[test]
fn nothing_is_touched_before_the_file_is_locked() {
    let waiting = WorkerState::AwaitingFileLock(MemoryCommand::Clear, resolved());
    assert_eq!(worker_step(waiting.clone(), WorkerEvent::MutexAcquired), None);
    assert_eq!(worker_step(waiting, WorkerEvent::DatabaseCleared), None);
    let waiting = WorkerState::AwaitingMutex(MemoryCommand::Run, resolved());
    assert_eq!(worker_step(waiting, WorkerEvent::FileLocked), None);
    let (first, _) = begin_memory_command(MemoryCommand::Run);
    assert_eq!(worker_step(first, WorkerEvent::Failed), None);
    assert_eq!(worker_step(WorkerState::Stopped, WorkerEvent::Failed), None);
    assert_eq!(worker_step(WorkerState::Stopped, WorkerEvent::OverridesParsed), None);
}

#[test]
fn database_elsewhere_is_not_moved() {
    let homes = MemoryHomes {
        codex_home: path(&["/", "link"]),
        sqlite_home: path(&["/", "srv", "db"]),
    };
    let (state, action) = worker_step(
        WorkerState::ResolvingHome(MemoryCommand::Clear, homes.clone()),
        WorkerEvent::HomeResolved(path(&["/", "real"])),
    )
    .unwrap();
    assert_eq!(action, WorkerAction::AcquireMutex(path(&["/", "real"]), None));
    assert_eq!(
        state,
        WorkerState::AwaitingMutex(
            MemoryCommand::Clear,
            MemoryHomes { codex_home: path(&["/", "real"]), sqlite_home: homes.sqlite_home }
        )
    );
}
