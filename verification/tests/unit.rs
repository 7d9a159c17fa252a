use syncerting_tray::instance::{acquired, Acquired, NameReply};
use syncerting_tray::unit::{binary_candidates, choose_binary, unit_file_contents, unit_state, user_unit_path_in, BinaryError};

#[test]
fn a_unit_that_cannot_be_loaded_is_not_installed() {
    let s = unit_state(None, None, None);
    assert!(!s.installed);
    let s = unit_state(Some("not-found"), Some("inactive".into()), Some("".into()));
    assert!(!s.installed);
    assert_eq!(s.active_state, "");
    let s = unit_state(Some("loaded"), Some("active".into()), None);
    assert!(s.installed);
    assert_eq!(s.active_state, "active");
    assert_eq!(s.file_state, "");
}

#[test]
fn the_unit_runs_the_chosen_binary() {
    let text = unit_file_contents("/usr/bin/syncthing");
    assert!(text.starts_with("[Unit]\nDescription=Syncthing - Open Source Continuous File Synchronization\n"));
    assert!(text.contains("\nExecStart=/usr/bin/syncthing serve --no-browser --no-restart --logflags=0\n"));
    assert!(text.ends_with("[Install]\nWantedBy=default.target\n"));
    assert_eq!(user_unit_path_in("/home/u/.config"), "/home/u/.config/systemd/user/syncthing.service");
}

#[test]
fn the_binary_comes_from_the_override_or_path() {
    let candidates = binary_candidates("/usr/local/bin:/usr/bin");
    assert_eq!(candidates, vec!["/usr/local/bin/syncthing".to_string(), "/usr/bin/syncthing".to_string()]);
    assert_eq!(choose_binary(None, &candidates, &vec![false, true]).unwrap(), "/usr/bin/syncthing");
    assert!(matches!(choose_binary(None, &candidates, &vec![false, false]), Err(BinaryError::NotOnPath)));
    assert_eq!(choose_binary(Some(("/opt/st", true)), &candidates, &vec![true, true]).unwrap(), "/opt/st");
    match choose_binary(Some(("/opt/st", false)), &candidates, &vec![true, true]) {
        Err(BinaryError::NotAFile { path }) => assert_eq!(path, "/opt/st"),
        other => panic!("unexpected {other:?}"),
    }
}

#[test]
fn the_second_instance_loses() {
    assert_eq!(acquired(NameReply::PrimaryOwner), Some(Acquired::Yes));
    assert_eq!(acquired(NameReply::AlreadyOwner), Some(Acquired::Yes));
    assert_eq!(acquired(NameReply::NameTaken), Some(Acquired::AlreadyRunning));
    assert_eq!(acquired(NameReply::Exists), Some(Acquired::AlreadyRunning));
    assert_eq!(acquired(NameReply::Failed), None);
}

#[test]
fn binary_refusals_say_what_to_do() {
    let not_a_file = BinaryError::NotAFile { path: "/opt/st".into() };
    assert_eq!(not_a_file.message(), "SYNCTHING_BINARY points at /opt/st, which is not a file");
    assert_eq!(
        BinaryError::NotOnPath.message(),
        "no `syncthing` binary on PATH - install Syncthing first, or set SYNCTHING_BINARY"
    );
}
