use task_master_sync::watcher::{
    auto_sync_options, Debouncer, WatchAction, WatchEvent, WatchInput, WatchMode, WatchState,
};
use task_master_sync::SyncDirection;

#[test]
fn test_watch_mode_defaults() {
    let mode = WatchMode::default();
    assert!(mode.auto_sync);
    assert_eq!(mode.debounce_ms, 1000);
}

#[test]
fn watch_mode_ignores_temporary_files() {
    let mode = WatchMode::default();
    assert_eq!(mode.ignore_patterns, vec!["*.tmp", "*.swp", "*~"]);
    assert!(mode.sync_options.use_delta_sync);
    assert!(!mode.sync_options.dry_run);
    assert_eq!(mode.sync_options.batch_size, 50);
}

#[test]
fn test_debouncing() {
    let mut d = Debouncer::new(1000);
    assert!(d.should_trigger(5_000));
    assert!(!d.should_trigger(5_999));
    assert!(d.should_trigger(6_000));
    assert!(!d.should_trigger(6_500));
    d.reset();
    assert!(d.should_trigger(6_501));
    assert!(!d.should_trigger(100));
}

#[test]
fn a_change_leads_to_one_synchronisation() {
    let mut state = WatchState::new(1000);
    assert_eq!(state.event_processor(&WatchInput::Timeout(10)), WatchAction::Continue);
    assert_eq!(
        state.event_processor(&WatchInput::Event(WatchEvent::TasksChanged)),
        WatchAction::Continue
    );
    assert!(state.pending_sync);
    assert_eq!(
        state.event_processor(&WatchInput::Event(WatchEvent::Error("x".to_string()))),
        WatchAction::Continue
    );
    assert_eq!(state.event_processor(&WatchInput::Timeout(2_000)), WatchAction::Sync);
    assert!(!state.pending_sync);
    assert_eq!(state.event_processor(&WatchInput::Timeout(3_000)), WatchAction::Continue);
    assert_eq!(
        state.event_processor(&WatchInput::Event(WatchEvent::ConfigChanged)),
        WatchAction::Continue
    );
    assert_eq!(state.event_processor(&WatchInput::Timeout(3_001)), WatchAction::Sync);
    assert_eq!(state.event_processor(&WatchInput::Closed), WatchAction::Stop);
}

#[test]
fn the_watcher_synchronises_changes_only() {
    let o = auto_sync_options();
    assert!(!o.dry_run && !o.force && o.use_delta_sync && !o.quiet && !o.include_archived);
    assert_eq!(o.direction, SyncDirection::ToGitHub);
    assert_eq!(o.batch_size, 50);
}
