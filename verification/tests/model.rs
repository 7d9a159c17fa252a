use syncerting_tray::model::{ApiState, AppState, Command, FolderState, Health, UnitState};

fn folder(state: &str, paused: bool, errors: u64) -> FolderState {
    FolderState {
        id: "f".into(),
        label: "Folder".into(),
        paused,
        path: "/tmp".into(),
        state: state.into(),
        // An empty folder is 100% in sync.
        global_bytes: 0,
        need_bytes: 0,
        errors,
    }
}

fn running(folders: Vec<FolderState>) -> AppState {
    AppState {
        unit: UnitState {
            installed: true,
            active_state: "active".into(),
            file_state: "enabled".into(),
        },
        api: ApiState::Connected,
        folders,
        ..Default::default()
    }
}

#[test]
fn a_missing_unit_reads_as_stopped() {
    let state = AppState::default();
    assert_eq!(state.health(), Health::Stopped);
    assert_eq!(state.health().icon_name(), "state-offline");
}

#[test]
fn a_failed_unit_outranks_everything_else() {
    let mut state = running(vec![]);
    state.unit.active_state = "failed".into();
    assert_eq!(state.health(), Health::Error);
}

#[test]
fn a_live_unit_with_no_api_yet_is_starting() {
    let mut state = running(vec![]);
    state.api = ApiState::Unreachable("connection refused".into());
    assert_eq!(state.health(), Health::Starting);
}

#[test]
fn folder_errors_outrank_syncing() {
    let state = running(vec![folder("syncing", false, 0), folder("idle", false, 3)]);
    assert_eq!(state.health(), Health::Error);
}

#[test]
fn syncing_outranks_idle() {
    let state = running(vec![folder("idle", false, 0), folder("syncing", false, 0)]);
    assert_eq!(state.health(), Health::Syncing);
    assert_eq!(state.health().icon_name(), "state-sync");
}

#[test]
fn paused_needs_every_folder_paused() {
    let all = running(vec![folder("paused", true, 0), folder("paused", true, 0)]);
    assert_eq!(all.health(), Health::Paused);
    assert!(all.all_paused());

    let some = running(vec![folder("paused", true, 0), folder("idle", false, 0)]);
    assert_eq!(some.health(), Health::UpToDate);
    assert!(!some.all_paused());
}

#[test]
fn a_paused_folder_is_not_counted_as_syncing() {
    // A folder can still report a stale "syncing" state while paused.
    let state = running(vec![folder("syncing", true, 0)]);
    assert_eq!(state.health(), Health::Paused);
}

#[test]
fn no_folders_at_all_is_still_ok() {
    let state = running(vec![]);
    assert_eq!(state.health(), Health::UpToDate);
    assert!(!state.all_paused());
}

#[test]
fn headline_reports_the_connected_device_ratio() {
    let mut state = running(vec![]);
    state.devices_connected = 1;
    state.devices_total = 3;
    assert_eq!(state.headline(), "Syncthing: running (1/3 devices connected)");

    state.devices_total = 1;
    assert_eq!(state.headline(), "Syncthing: running (1/1 device connected)");
}

#[test]
fn enabled_detection_tolerates_the_runtime_suffix() {
    let mut unit = UnitState {
        installed: true,
        active_state: "active".into(),
        file_state: "enabled".into(),
    };
    assert!(unit.is_enabled());
    // systemd reports "enabled-runtime" for transiently enabled units.
    unit.file_state = "enabled-runtime".into();
    assert!(unit.is_enabled());
    unit.file_state = "disabled".into();
    assert!(!unit.is_enabled());
}

#[test]
fn a_not_configured_api_reads_as_an_error_with_its_reason() {
    let mut state = running(vec![]);
    state.api = ApiState::NotConfigured("no API key".into());
    assert_eq!(state.health(), Health::Error);
    assert_eq!(state.headline(), "Syncthing: no API key");
}

#[test]
fn headlines_for_a_unit_that_is_not_running() {
    let state = AppState::default();
    assert_eq!(state.headline(), "Syncthing: not installed as a user service");
    let mut state = running(vec![]);
    state.unit.active_state = "failed".into();
    assert_eq!(state.headline(), "Syncthing: service failed");
    state.unit.active_state = "inactive".into();
    assert_eq!(state.headline(), "Syncthing: stopped");
    assert_eq!(state.health(), Health::Stopped);
    state.unit.active_state = "active".into();
    state.api = ApiState::Unreachable("x".into());
    assert_eq!(state.headline(), "Syncthing: starting\u{2026}");
}

#[test]
fn a_folder_in_error_state_reads_as_an_error() {
    let state = running(vec![folder("error", false, 0)]);
    assert_eq!(state.health(), Health::Error);
    assert_eq!(Health::Error.icon_name(), "state-error");
    assert_eq!(Health::Paused.icon_name(), "state-pause");
    assert_eq!(Health::UpToDate.icon_name(), "state-ok");
    assert_eq!(Health::Starting.icon_name(), "state-sync");
}

#[test]
fn folder_summaries() {
    let mut f = folder("idle", false, 0);
    assert_eq!(f.summary(), "up to date");
    f.errors = 1;
    assert_eq!(f.summary(), "1 error");
    f.errors = 12;
    assert_eq!(f.summary(), "12 errors");
    f.errors = 0;
    f.state = "scanning".into();
    f.global_bytes = 1000;
    f.need_bytes = 250;
    assert_eq!(f.summary(), "scanning 75%");
    f.state = "idle".into();
    assert_eq!(f.summary(), "75%");
    // 99.99% in sync rounds to 100% but is not yet up to date.
    f.global_bytes = 10000;
    f.need_bytes = 1;
    assert_eq!(f.summary(), "100%");
    // 99.995% is.
    f.global_bytes = 200000;
    f.need_bytes = 10;
    assert_eq!(f.summary(), "up to date");
    f.paused = true;
    assert_eq!(f.summary(), "paused");
}

#[test]
fn display_name_falls_back_to_the_id() {
    let mut f = folder("idle", false, 0);
    assert_eq!(f.display_name(), "Folder");
    f.label = String::new();
    assert_eq!(f.display_name(), "f");
}

#[test]
fn command_labels() {
    assert_eq!(Command::Start.label(), "Start Syncthing");
    assert_eq!(Command::SetEnabled(true).label(), "Enable Start Syncthing at Login");
    assert_eq!(Command::SetEnabled(false).label(), "Disable Start Syncthing at Login");
    assert_eq!(Command::SetAutostart(true).label(), "Enable Start Tray at Login");
    assert_eq!(Command::SetAllPaused(true).label(), "Pause All");
    assert_eq!(Command::SetAllPaused(false).label(), "Resume All");
    assert_eq!(Command::OpenFolder("/home/x/Documents".into()).label(), "Open /home/x/Documents");
    assert_eq!(Command::InstallUnit.label(), "Install User Service");
    assert_eq!(Command::Quit.label(), "Quit");
}

#[test]
fn unit_state_predicates() {
    let unit = UnitState { installed: true, active_state: "failed".into(), file_state: "disabled".into() };
    assert!(unit.has_failed());
    assert!(!unit.is_active());
    assert!(!unit.is_enabled());
    let unit = UnitState::default();
    assert!(!unit.installed);
    assert!(!unit.is_active());
}
