use syncerting_tray::icons::Style;
use syncerting_tray::model::{ApiState, AppState, Command, FolderState, Health, UnitState};
use syncerting_tray::tray::{folder_items, menu, service_items, tooltip_description, tray_icon_name, MenuEntry};

fn running() -> AppState {
    AppState {
        unit: UnitState { installed: true, active_state: "active".into(), file_state: "enabled".into() },
        api: ApiState::Connected,
        ..Default::default()
    }
}

fn labels(items: &[MenuEntry]) -> Vec<String> {
    items
        .iter()
        .map(|e| match e {
            MenuEntry::Label(t) => t.clone(),
            MenuEntry::Action { label, .. } => label.clone(),
            MenuEntry::Checkmark { label, .. } => label.clone(),
            MenuEntry::Separator => "--".into(),
        })
        .collect()
}

#[test]
fn a_missing_unit_offers_installation() {
    let state = AppState::default();
    let items = service_items(&state);
    assert_eq!(labels(&items), vec!["syncthing.service is not installed", "Install User Service\u{2026}"]);
    match &items[1] {
        MenuEntry::Action { enabled, command, icon, .. } => {
            assert!(*enabled);
            assert_eq!(*command, Command::InstallUnit);
            assert_eq!(icon, "document-save");
        }
        other => panic!("unexpected {other:?}"),
    }
}

#[test]
fn start_and_stop_follow_the_unit() {
    let state = running();
    let items = service_items(&state);
    let enabled: Vec<bool> = items
        .iter()
        .map(|e| match e {
            MenuEntry::Action { enabled, .. } | MenuEntry::Checkmark { enabled, .. } => *enabled,
            _ => false,
        })
        .collect();
    assert_eq!(enabled, vec![false, true, true, true]);
    match &items[3] {
        MenuEntry::Checkmark { checked, command, .. } => {
            assert!(*checked);
            assert_eq!(*command, Command::SetEnabled(false));
        }
        other => panic!("unexpected {other:?}"),
    }
    let mut busy = running();
    busy.busy = true;
    assert!(service_items(&busy).iter().all(|e| match e {
        MenuEntry::Action { enabled, .. } | MenuEntry::Checkmark { enabled, .. } => !*enabled,
        _ => true,
    }));
}

#[test]
fn folders_are_listed_only_when_connected() {
    let mut state = running();
    assert_eq!(labels(&folder_items(&state)), vec!["No folders configured"]);
    state.folders.push(FolderState {
        id: "docs".into(),
        label: "Documents".into(),
        paused: false,
        path: "/home/x/Documents".into(),
        state: "syncing".into(),
        global_bytes: 1000,
        need_bytes: 250,
        errors: 0,
    });
    let items = folder_items(&state);
    match &items[0] {
        MenuEntry::Action { label, icon, enabled, command } => {
            assert_eq!(label, "Documents  \u{2014}  syncing 75%");
            assert_eq!(icon, "state-sync");
            assert!(*enabled);
            assert_eq!(*command, Command::OpenFolder("/home/x/Documents".into()));
        }
        other => panic!("unexpected {other:?}"),
    }
    state.api = ApiState::Unreachable("down".into());
    assert!(folder_items(&state).is_empty());
}

#[test]
fn the_whole_menu() {
    let mut state = running();
    state.last_error = Some("boom".into());
    let items = menu(&state);
    assert_eq!(
        labels(&items),
        vec![
            "Syncthing: running (0/0 devices connected)",
            "  boom",
            "--",
            "No folders configured",
            "--",
            "Open Web UI",
            "Rescan All",
            "Pause All",
            "--",
            "Start Syncthing",
            "Stop Syncthing",
            "Restart Syncthing",
            "Start Syncthing at Login",
            "--",
            "Start Tray at Login",
            "Quit",
        ]
    );
    let mut down = AppState::default();
    down.api = ApiState::NotConfigured("no config.xml".into());
    let items = menu(&down);
    assert_eq!(labels(&items)[..3], ["Syncthing: not installed as a user service", "  no config.xml", "--"]);
    match &items[4] {
        MenuEntry::Action { label, enabled, .. } => {
            assert_eq!(label, "Rescan All");
            assert!(!*enabled);
        }
        other => panic!("unexpected {other:?}"),
    }
}

#[test]
fn the_tooltip_adds_version_and_error() {
    let mut state = running();
    state.version = Some("v1.29.2".into());
    state.last_error = Some("boom".into());
    assert_eq!(
        tooltip_description(&state),
        "Syncthing: running (0/0 devices connected)\nSyncthing v1.29.2\nboom"
    );
}

#[test]
fn the_tray_icon_name_by_style() {
    assert_eq!(tray_icon_name(Health::Paused, Style::Monochrome, true), "syncerting-tray-paused");
    assert_eq!(tray_icon_name(Health::Paused, Style::Colour, true), "");
    assert_eq!(tray_icon_name(Health::Paused, Style::Colour, false), "state-pause");
}

#[test]
fn every_checkmark_offers_the_opposite() {
    let mut state = running();
    state.autostart = true;
    for entry in menu(&state) {
        if let MenuEntry::Checkmark { checked, command, .. } = entry {
            assert!(command == Command::SetEnabled(!checked) || command == Command::SetAutostart(!checked));
        }
    }
}

#[test]
fn nothing_service_related_is_clickable_while_busy() {
    let mut state = running();
    state.busy = true;
    for entry in menu(&state) {
        match entry {
            MenuEntry::Action { command, enabled, .. } => {
                if matches!(command, Command::Start | Command::Stop | Command::Restart | Command::InstallUnit) {
                    assert!(!enabled, "{command:?} is clickable while busy");
                }
            }
            MenuEntry::Checkmark { enabled, label, .. } => assert!(!enabled, "{label} is clickable while busy"),
            _ => {}
        }
    }
}
