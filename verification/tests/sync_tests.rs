//! The sync orchestrator's decisions: the state machine, pull
//! classification, conflict detection, setup and tracking-branch choice.

use utodo::config::{auto_sync_if_enabled, is_auto_sync_enabled, Config};
use utodo::errors::TodoError;
use utodo::sync::{
    choose_tracking_branch, classify_pull, conflict_detected, setup_plan, sync_start, sync_step,
    GitStatus, PullOutcome, SetupPlan, SyncAction, SyncEvent, SyncPhase,
};

#[test]
fn test_git_status_creation() {
    let status = GitStatus {
        has_remote: false,
        remote_url: None,
        has_changes: false,
        current_branch: Some("main".to_string()),
        change_count: 0,
    };

    assert_eq!(status.current_branch, Some("main".to_string()));
    assert!(!status.has_remote);
    assert!(!status.has_changes);
}

#[test]
fn git_status_display_names_branch_remote_and_state() {
    let status = GitStatus {
        has_remote: true,
        remote_url: Some("git@example.com:user/todos.git".to_string()),
        has_changes: true,
        current_branch: Some("main".to_string()),
        change_count: 12,
    };
    let lines = status.display();
    assert_eq!(lines.len(), 4);
    assert_eq!(lines[0], "Git Status:");
    assert_eq!(lines[1], "   Branch: main");
    assert_eq!(lines[2], "   Remote: git@example.com:user/todos.git");
    assert_eq!(lines[3], "   Status: 12 uncommitted changes");
}

#[test]
fn a_clean_sync_with_a_remote_walks_to_done() {
    let (phase, action) = sync_start();
    assert!(matches!((phase, action), (SyncPhase::Staging, SyncAction::Stage)));
    let (phase, action) = sync_step(phase, SyncEvent::Staged).unwrap();
    assert!(matches!((phase, action), (SyncPhase::Committing, SyncAction::Commit)));
    let (phase, action) = sync_step(phase, SyncEvent::Committed).unwrap();
    assert!(matches!((phase, action), (SyncPhase::CheckingRemote, SyncAction::CheckRemote)));
    let (phase, action) = sync_step(phase, SyncEvent::RemoteFound).unwrap();
    assert!(matches!((phase, action), (SyncPhase::PullPending, SyncAction::Pull)));
    // local HEAD equals remote HEAD: already up to date, the store file is
    // never rewritten because the resolver is never asked to run
    let (phase, action) = sync_step(phase, SyncEvent::PullUpToDate).unwrap();
    assert!(matches!((phase, action), (SyncPhase::Pushing, SyncAction::Push)));
    let (phase, action) = sync_step(phase, SyncEvent::Pushed).unwrap();
    assert!(matches!((phase, action), (SyncPhase::Done, SyncAction::Stop)));
}

#[test]
fn without_a_remote_the_sync_ends_after_the_commit() {
    let (phase, _) = sync_step(SyncPhase::Committing, SyncEvent::NothingToCommit).unwrap();
    let r = sync_step(phase, SyncEvent::NoRemote).unwrap();
    assert!(matches!(r, (SyncPhase::Done, SyncAction::Stop)));
}

#[test]
fn a_conflict_goes_through_the_resolver_then_pushes() {
    let (phase, action) = sync_step(SyncPhase::PullPending, SyncEvent::PullConflict).unwrap();
    assert!(matches!((phase, action), (SyncPhase::ResolvePending, SyncAction::Resolve)));
    let (phase, action) = sync_step(phase, SyncEvent::Resolved).unwrap();
    assert!(matches!((phase, action), (SyncPhase::Restaging, SyncAction::Stage)));
    let (phase, action) = sync_step(phase, SyncEvent::Staged).unwrap();
    assert!(matches!((phase, action), (SyncPhase::Recommitting, SyncAction::Commit)));
    let (phase, action) = sync_step(phase, SyncEvent::Committed).unwrap();
    assert!(matches!((phase, action), (SyncPhase::Pushing, SyncAction::Push)));
}

#[test]
fn each_phase_fails_with_its_own_error() {
    let e = sync_step(SyncPhase::Staging, SyncEvent::StageError("boom".to_string()))
        .expect_err("stage errors halt the sync");
    assert_eq!(e.message(), "staging the store file failed");
    let e = sync_step(SyncPhase::Committing, SyncEvent::CommitError("boom".to_string()))
        .expect_err("commit errors halt the sync");
    assert_eq!(e.message(), "committing the store file failed");
    let e = sync_step(SyncPhase::PullPending, SyncEvent::PullError("boom".to_string()))
        .expect_err("pull errors halt the sync");
    assert_eq!(e.message(), "pulling from the remote failed");
    let e = sync_step(SyncPhase::Pushing, SyncEvent::PushError("boom".to_string()))
        .expect_err("push errors keep the local commit");
    assert_eq!(e.message(), "pushing failed - the local commit is kept, sync again");
    let e = sync_step(SyncPhase::ResolvePending, SyncEvent::ResolveAborted)
        .expect_err("an aborted resolution is an error");
    assert_eq!(
        e.message(),
        "conflict resolution was interrupted - the store file is unchanged"
    );
}

#[test]
fn equal_heads_classify_as_up_to_date() {
    assert!(matches!(classify_pull(true, true, false, false), PullOutcome::UpToDate));
    assert!(matches!(classify_pull(true, true, true, false), PullOutcome::UpToDate));
}

#[test]
fn pull_classification_follows_the_analysis() {
    assert!(matches!(classify_pull(false, false, false, false), PullOutcome::InitialCheckout));
    assert!(matches!(classify_pull(true, false, true, false), PullOutcome::FastForward));
    assert!(matches!(classify_pull(true, false, false, true), PullOutcome::UpToDate));
    assert!(matches!(
        classify_pull(true, false, false, false),
        PullOutcome::ManualMergeRequired
    ));
}

#[test]
fn conflict_markers_in_either_stream_are_detected() {
    assert!(conflict_detected("CONFLICT (content): merge conflict", ""));
    assert!(conflict_detected("", "error: CONFLICT in todos.json"));
    assert!(conflict_detected("Automatic merge failed; fix conflicts", ""));
    assert!(conflict_detected("", "Automatic merge failed"));
    assert!(!conflict_detected("Fast-forward", "all clean"));
}

#[test]
fn setup_on_an_empty_directory_initializes_and_writes_the_store() {
    // a fresh data directory with no repository, no remote and no store file
    let plan = setup_plan(false, false, false, false);
    assert!(matches!(plan, SetupPlan::InitRepo { write_store: true }));
    // with a store file already present it is kept
    let plan = setup_plan(false, false, false, true);
    assert!(matches!(plan, SetupPlan::InitRepo { write_store: false }));
}

#[test]
fn setup_is_idempotent_and_never_overwrites_a_remote() {
    assert!(matches!(setup_plan(true, false, false, true), SetupPlan::KeepRepo));
    assert!(matches!(setup_plan(true, true, false, true), SetupPlan::AddRemote));
    assert!(matches!(setup_plan(true, true, true, true), SetupPlan::WarnRemoteExists));
    assert!(matches!(setup_plan(false, true, false, false), SetupPlan::CloneRemote));
}

#[test]
fn tracking_branch_prefers_main_then_master() {
    let branches = vec!["dev".to_string(), "master".to_string(), "main".to_string()];
    let chosen = choose_tracking_branch(false, &branches).unwrap();
    assert_eq!(chosen, Some("main".to_string()));

    let branches = vec!["master".to_string()];
    let chosen = choose_tracking_branch(false, &branches).unwrap();
    assert_eq!(chosen, Some("master".to_string()));

    let chosen = choose_tracking_branch(true, &branches).unwrap();
    assert_eq!(chosen, None);

    let branches = vec!["trunk".to_string()];
    let err = choose_tracking_branch(false, &branches).expect_err("no default branch");
    assert_eq!(err.message(), "the remote has neither a main nor a master branch");
}

#[test]
fn auto_sync_runs_only_when_enabled() {
    let mut config = Config::new("/tmp/td".to_string());
    assert!(!is_auto_sync_enabled(&config));
    assert!(auto_sync_if_enabled(&config).is_none());
    config.set_auto_sync(true);
    assert!(is_auto_sync_enabled(&config));
    let (phase, action) = auto_sync_if_enabled(&config).unwrap();
    assert!(matches!((phase, action), (SyncPhase::Staging, SyncAction::Stage)));
}

#[test]
fn config_paths_are_built_from_the_data_directory() {
    let mut config = Config::new("/home/u/.local/share/unsafeToDo".to_string());
    assert_eq!(
        config.get_todos_file_path(),
        "/home/u/.local/share/unsafeToDo/todos.json"
    );
    assert_eq!(
        Config::get_config_file_path("/home/u/.config"),
        "/home/u/.config/unsafeToDo/config.json"
    );
    config.set_git_remote("git@example.com:user/todos.git".to_string());
    assert_eq!(config.git_remote, Some("git@example.com:user/todos.git".to_string()));
}

#[test]
fn every_error_variant_has_an_actionable_message() {
    assert_eq!(
        TodoError::NotARepository.message(),
        "not a git repository - initialize it first"
    );
    assert_eq!(
        TodoError::NoTrackingBranch.message(),
        "the active branch has no tracking branch"
    );
    let e = TodoError::CorruptRecord { line: 7 };
    assert!(e.is_corrupt_record_at(7));
    assert!(!e.is_corrupt_record_at(6));
    assert!(!TodoError::NotARepository.is_corrupt_record_at(7));
}
