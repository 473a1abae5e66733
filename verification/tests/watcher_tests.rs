//! The watch scheduler's state machine.

use autodoc::metadata::ProjectConfig;
use autodoc::watcher::{FileWatcher, SchedulerAction, WatchEvent, WatchState};

fn watcher() -> FileWatcher {
    FileWatcher::new(ProjectConfig::default())
}

fn changed(paths: Vec<&str>) -> WatchEvent {
    WatchEvent::Changed { paths: paths.into_iter().map(|s| s.to_string()).collect() }
}

#[test]
fn test_should_rebuild_by_extension() {
    let w = watcher();
    assert!(w.should_rebuild("01-intro.md"));
    assert!(w.should_rebuild("config.yaml"));
    assert!(w.should_rebuild("config.yml"));
    assert!(!w.should_rebuild("artifact.pdf"));
    assert!(!w.should_rebuild("Makefile"));
}

#[test]
fn test_start_runs_one_build() {
    let w = watcher();
    let (state, action) = w.on_start();
    assert_eq!(state, WatchState::Building);
    assert_eq!(action, SchedulerAction::StartBuild);
}

#[test]
fn test_qualifying_event_starts_build() {
    let w = watcher();
    let (state, action) = w.on_event(WatchState::Watching, &changed(vec!["x.md"]));
    assert_eq!(state, WatchState::Building);
    assert_eq!(action, SchedulerAction::StartBuild);
}

#[test]
fn test_non_matching_event_is_ignored() {
    let w = watcher();
    let (state, action) = w.on_event(WatchState::Watching, &changed(vec!["x.png", "y.log"]));
    assert_eq!(state, WatchState::Watching);
    assert_eq!(action, SchedulerAction::Ignore);
}

#[test]
fn test_watch_resilience_after_failed_build() {
    // A failed build cycle returns the scheduler to watching, and the next
    // qualifying event still triggers a rebuild.
    let w = watcher();
    let (state, _) = w.on_event(WatchState::Watching, &changed(vec!["a.md"]));
    assert_eq!(state, WatchState::Building);

    let state = w.on_build_done(state, false);
    assert_eq!(state, WatchState::Watching);

    let (state, action) = w.on_event(state, &changed(vec!["a.md"]));
    assert_eq!(state, WatchState::Building);
    assert_eq!(action, SchedulerAction::StartBuild);
}

#[test]
fn test_lost_event_source_stops_the_watch() {
    let w = watcher();
    let (state, action) = w.on_event(WatchState::Watching, &WatchEvent::Lost);
    assert_eq!(state, WatchState::Stopped);
    assert_eq!(action, SchedulerAction::Stop);
}

#[test]
fn test_events_outside_watching_do_not_start_concurrent_builds() {
    let w = watcher();
    let (state, action) = w.on_event(WatchState::Building, &changed(vec!["a.md"]));
    assert_eq!(state, WatchState::Building);
    assert_eq!(action, SchedulerAction::Ignore);
}
