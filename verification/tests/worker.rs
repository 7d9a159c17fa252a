use syncerting_tray::client::{Event, Snapshot};
use syncerting_tray::model::{ApiState, AppState, Command, UnitState};
use syncerting_tray::worker::{
    after_command, after_poll, apply_client_outcome, apply_refresh_failure, apply_snapshot, begin_command,
    command_step, dispatch_plan, finish_command, on_tick, refresh_due, web_ui_url, CommandStep, Effect,
    Schedule,
};

#[test]
fn refreshes_coalesce_and_self_heal() {
    assert!(!refresh_due(true, 500));
    assert!(refresh_due(true, 1000));
    assert!(!refresh_due(false, 9999));
    assert!(refresh_due(false, 10000));
}

#[test]
fn commands_step() {
    assert_eq!(command_step(&Command::Quit), CommandStep::Shutdown);
    assert_eq!(command_step(&Command::Refresh), CommandStep::MarkDirty);
    assert_eq!(command_step(&Command::Start), CommandStep::Handle);
}

#[test]
fn service_operations_show_busy_until_done() {
    let mut state = AppState::default();
    assert!(begin_command(&mut state, &Command::Restart));
    assert!(state.busy);
    finish_command(&mut state, Some("unit failed".into()));
    assert!(!state.busy);
    assert_eq!(state.last_error.as_deref(), Some("unit failed"));
    assert!(!begin_command(&mut state, &Command::RescanAll));
    assert!(!state.busy);
    finish_command(&mut state, None);
    assert!(state.last_error.is_none());
}

#[test]
fn installing_writes_reloads_enables_and_starts() {
    assert_eq!(
        dispatch_plan(Command::InstallUnit),
        vec![
            Effect::WriteUnitFile,
            Effect::ReloadManager,
            Effect::EnableUnitFile,
            Effect::ReloadManager,
            Effect::StartUnit
        ]
    );
    assert_eq!(dispatch_plan(Command::SetEnabled(false)), vec![Effect::DisableUnitFile, Effect::ReloadManager]);
    assert_eq!(dispatch_plan(Command::OpenFolder("/x".into())), vec![Effect::OpenPath("/x".into())]);
    assert!(dispatch_plan(Command::Quit).is_empty());
}

#[test]
fn refresh_outcomes() {
    let mut state = AppState::default();
    state.unit = UnitState { installed: true, active_state: "active".into(), file_state: "enabled".into() };
    apply_snapshot(
        &mut state,
        Snapshot { folders: vec![], devices_connected: 1, devices_total: 2, version: "v1".into() },
    );
    assert_eq!(state.api, ApiState::Connected);
    assert_eq!(state.devices_total, 2);
    assert_eq!(state.version.as_deref(), Some("v1"));
    // A running unit keeps its client across a failed refresh.
    assert!(!apply_refresh_failure(&mut state, "connection refused".into()));
    assert_eq!(state.api, ApiState::Unreachable("connection refused".into()));
    assert_eq!(state.devices_total, 0);
    state.unit.active_state = "inactive".into();
    assert!(apply_refresh_failure(&mut state, "connection refused".into()));
    apply_client_outcome(&mut state, None);
    assert_eq!(state.api, ApiState::Unreachable("connecting".into()));
    apply_client_outcome(&mut state, Some("no API key".into()));
    assert_eq!(state.api, ApiState::NotConfigured("no API key".into()));
}

#[test]
fn the_event_loop_advances_and_backs_off() {
    let events = vec![Event { id: 4, event_type: "Ping".into() }, Event { id: 5, event_type: "FolderPaused".into() }];
    let step = after_poll(0, Some(&events));
    assert_eq!((step.since, step.notify, step.back_off), (5, true, false));
    let quiet = vec![Event { id: 6, event_type: "Ping".into() }];
    let step = after_poll(5, Some(&quiet));
    assert_eq!((step.since, step.notify, step.back_off), (6, false, false));
    let step = after_poll(6, None);
    assert_eq!((step.since, step.notify, step.back_off), (6, true, true));
}

#[test]
fn the_web_ui_defaults_to_loopback() {
    assert_eq!(web_ui_url(None), "http://127.0.0.1:8384");
    assert_eq!(web_ui_url(Some("https://h:1")), "https://h:1");
}

#[test]
fn the_schedule_forces_a_refresh_after_a_command() {
    let start = Schedule::new();
    let (quiet, refreshed) = on_tick(start, 0);
    assert!(refreshed);
    assert_eq!(quiet, Schedule { dirty: false, forced: false });
    // Nothing happens on a quiet tick before the ten-second mark...
    assert_eq!(on_tick(quiet, 9_999), (quiet, false));
    // ...a bare refresh request waits for a full tick...
    let stale = after_command(quiet, CommandStep::MarkDirty);
    assert_eq!(on_tick(stale, 500), (stale, false));
    assert!(on_tick(stale, 1_000).1);
    // ...and a command that was carried out refreshes at once.
    let handled = after_command(quiet, CommandStep::Handle);
    assert!(on_tick(handled, 0).1);
}

#[test]
fn a_burst_of_refresh_requests_makes_one_refresh() {
    let mut schedule = Schedule { dirty: false, forced: false };
    for _ in 0..50 {
        schedule = after_command(schedule, CommandStep::MarkDirty);
    }
    assert_eq!(on_tick(schedule, 999), (schedule, false));
    let (after, refreshed) = on_tick(schedule, 1_000);
    assert!(refreshed);
    assert!(!on_tick(after, 1_500).1);
}
