use zenstac::cleanup::{
    entry_cleanup_actions, orphan_removals, CleanupEvent, CleanupPhase, FsAction, GroupingCleanup,
};
use zenstac::config::Config;
use zenstac::handlers::{collection_delete_followup, item_delete_followup};
use zenstac::cleanup::CleanupKind;
use zenstac::listener::{
    config_error_message, server_config_snapshot, start_message, stop_message, validate_server_config,
    ConfigError, ServerState, StartAction, StopAction,
};

#[test]
fn start_twice_keeps_one_handle_and_reports_already_running() {
    let mut state = ServerState::new(Config::default());
    let first = state.start(1);
    match first {
        StartAction::Spawn { ref host, port, handle } => {
            assert_eq!(host, "127.0.0.1");
            assert_eq!(port, 3000);
            assert_eq!(handle, 1);
        },
        StartAction::AlreadyRunning => panic!("first start must spawn"),
    }
    let second = state.start(2);
    assert_eq!(second, StartAction::AlreadyRunning);
    assert_eq!(state.server_handle, Some(1));
    assert!(state.is_running);
    assert_eq!(start_message(&second), "Server is already running");
    assert_eq!(
        start_message(&first),
        "Server started successfully on 127.0.0.1:3000"
    );
}

#[test]
fn stop_when_stopped_reports_was_not_running_and_cancels_nothing() {
    let mut state = ServerState::new(Config::default());
    let action = state.stop();
    assert_eq!(action, StopAction::WasNotRunning);
    assert_eq!(state.server_handle, None);
    assert!(!state.is_running);
    assert_eq!(stop_message(&action), "Server was not running");
}

#[test]
fn stop_cancels_the_recorded_handle() {
    let mut state = ServerState::new(Config::default());
    state.start(7);
    let action = state.stop();
    assert_eq!(action, StopAction::Cancel { handle: 7 });
    assert_eq!(state.server_handle, None);
    assert_eq!(stop_message(&action), "Server stopped successfully");
}

#[test]
fn restart_swaps_the_handle() {
    let mut state = ServerState::new(Config::default());
    state.start(1);
    let (stopped, started) = state.restart(2);
    assert_eq!(stopped, StopAction::Cancel { handle: 1 });
    match started {
        StartAction::Spawn { handle, .. } => assert_eq!(handle, 2),
        StartAction::AlreadyRunning => panic!("restart must spawn"),
    }
    assert_eq!(state.server_handle, Some(2));
}

#[test]
fn reconfigure_validates_before_touching_state() {
    let mut state = ServerState::new(Config::default());
    assert_eq!(
        state.reconfigure("a".to_string(), "b".to_string(), 80, 1),
        Err(ConfigError::PortOutOfRange)
    );
    assert_eq!(
        state.reconfigure("".to_string(), "b".to_string(), 8080, 1),
        Err(ConfigError::EmptyAddress)
    );
    assert_eq!(state.config.server.port, 3000);
    assert!(!state.is_running);
    let r = state.reconfigure("0.0.0.0".to_string(), "maps.example.net".to_string(), 8080, 9);
    assert!(r.is_ok());
    assert_eq!(state.config.server.internal_address, "0.0.0.0");
    assert_eq!(state.config.server.external_address, "maps.example.net");
    assert_eq!(state.config.server.port, 8080);
    assert_eq!(state.server_handle, Some(9));
    assert!(state.is_running);
    assert!(validate_server_config("a", "b", 8080).is_ok());
    assert_eq!(validate_server_config("a", "b", 80), Err(ConfigError::PortOutOfRange));
    assert_eq!(validate_server_config("", "b", 8080), Err(ConfigError::EmptyAddress));
    assert_eq!(
        config_error_message(&ConfigError::PortOutOfRange),
        "Port must be between 1024 and 65535"
    );
    assert_eq!(config_error_message(&ConfigError::EmptyAddress), "Addresses cannot be empty");
}

#[test]
fn snapshot_reports_the_current_settings() {
    let config = Config::default();
    let (internal, external, port, url) = server_config_snapshot(&config);
    assert_eq!(internal, "127.0.0.1");
    assert_eq!(external, "127.0.0.1");
    assert_eq!(port, 3000);
    assert_eq!(url, "http://127.0.0.1:3000/v1");
}

#[test]
fn entry_cleanup_plans_tree_then_empty_parent() {
    let actions = entry_cleanup_actions("col", "item");
    assert_eq!(actions.len(), 2);
    assert_eq!(
        actions[0],
        FsAction::RemoveTree { path: vec!["col".to_string(), "item".to_string()] }
    );
    assert_eq!(
        actions[1],
        FsAction::RemoveDirIfEmpty { path: vec!["col".to_string()] }
    );
}

#[test]
fn orphan_sweep_removes_exactly_the_empty_directories() {
    let dirs = vec![
        ("a".to_string(), true),
        ("b".to_string(), false),
        ("c".to_string(), true),
    ];
    assert_eq!(orphan_removals(dirs), vec!["a".to_string(), "c".to_string()]);
}

#[test]
fn delete_followups_enqueue_jobs_only_on_success() {
    let job = collection_delete_followup("col".to_string(), true).unwrap();
    assert_eq!(job.collection_id, "col");
    assert_eq!(job.item_id, None);
    assert_eq!(job.kind, CleanupKind::Collection);
    assert!(collection_delete_followup("col".to_string(), false).is_none());
    let job = item_delete_followup("col".to_string(), "it".to_string(), true).unwrap();
    assert_eq!(job.item_id, Some("it".to_string()));
    assert_eq!(job.kind, CleanupKind::Item);
    assert!(item_delete_followup("col".to_string(), "it".to_string(), false).is_none());
}

/// Runs the grouping cleanup against a simulated directory whose removal
/// fails the given number of times before succeeding. Returns the outcome
/// and how many removal calls were made.
fn run_cleanup(failures_before_success: usize) -> (bool, usize) {
    let mut machine = GroupingCleanup::new("col".to_string());
    let mut exists = true;
    let mut failures_left = failures_before_success;
    let mut removals = 0usize;
    loop {
        let action = match machine.next_action() {
            Some(a) => a,
            None => break,
        };
        let event = match action {
            FsAction::Sleep { .. } => CleanupEvent::Slept,
            FsAction::CheckExists { .. } => CleanupEvent::Exists { exists },
            FsAction::RemoveTree { .. } => {
                removals += 1;
                if failures_left > 0 {
                    failures_left -= 1;
                    CleanupEvent::RemoveResult { ok: false }
                } else {
                    exists = false;
                    CleanupEvent::RemoveResult { ok: true }
                }
            },
            FsAction::RemoveChildren { .. } => CleanupEvent::ChildrenRemoved,
            FsAction::RemoveDirIfEmpty { .. } => panic!("grouping cleanup never asks this"),
        };
        machine.observe(event);
    }
    (machine.finished().unwrap(), removals)
}

#[test]
fn grouping_cleanup_succeeds_within_budget() {
    let (removed, removals) = run_cleanup(0);
    assert!(removed);
    assert_eq!(removals, 1);
    let (removed, removals) = run_cleanup(4);
    assert!(removed);
    assert_eq!(removals, 5);
}

#[test]
fn grouping_cleanup_gives_up_after_five_attempts() {
    let (removed, removals) = run_cleanup(10);
    assert!(!removed);
    assert_eq!(removals, 5);
}

#[test]
fn grouping_cleanup_skips_an_absent_directory() {
    let mut machine = GroupingCleanup::new("col".to_string());
    assert_eq!(machine.next_action(), Some(FsAction::Sleep { millis: 100 }));
    machine.observe(CleanupEvent::Slept);
    assert_eq!(
        machine.next_action(),
        Some(FsAction::CheckExists { path: vec!["col".to_string()] })
    );
    machine.observe(CleanupEvent::Exists { exists: false });
    assert_eq!(machine.finished(), Some(true));
    assert_eq!(machine.next_action(), None);
}

#[test]
fn grouping_cleanup_backs_off_as_documented() {
    let mut machine = GroupingCleanup::new("col".to_string());
    machine.observe(CleanupEvent::Slept);
    machine.observe(CleanupEvent::Exists { exists: true });
    assert_eq!(
        machine.next_action(),
        Some(FsAction::RemoveTree { path: vec!["col".to_string()] })
    );
    // A failed removal waits a second, walks the children, waits again.
    machine.observe(CleanupEvent::RemoveResult { ok: false });
    assert_eq!(machine.next_action(), Some(FsAction::Sleep { millis: 1000 }));
    machine.observe(CleanupEvent::Slept);
    assert_eq!(
        machine.next_action(),
        Some(FsAction::RemoveChildren { path: vec!["col".to_string()] })
    );
    machine.observe(CleanupEvent::ChildrenRemoved);
    assert_eq!(machine.next_action(), Some(FsAction::Sleep { millis: 500 }));
    machine.observe(CleanupEvent::Slept);
    // A removal that claims success but leaves the directory waits half a
    // second before the next attempt.
    machine.observe(CleanupEvent::RemoveResult { ok: true });
    machine.observe(CleanupEvent::Exists { exists: true });
    assert_eq!(machine.next_action(), Some(FsAction::Sleep { millis: 500 }));
}
