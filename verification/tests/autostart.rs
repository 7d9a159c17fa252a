use syncerting_tray::autostart::{desktop_entry, entry_path_in, is_enabled, is_hidden_entry, quote_exec};

#[test]
fn paths_needing_quotes_get_them() {
    assert_eq!(quote_exec("/usr/bin/syncerting-tray"), "/usr/bin/syncerting-tray");
    assert_eq!(quote_exec("/home/a b/syncerting-tray"), "\"/home/a b/syncerting-tray\"");
}

#[test]
fn quoting_escapes_backslashes_and_quotes() {
    assert_eq!(quote_exec(r#"/a\b"c"#), r#""/a\\b\"c""#);
    assert_eq!(quote_exec("/opt/$x"), "\"/opt/$x\"");
}

#[test]
fn a_hidden_entry_reads_as_disabled() {
    let hidden = "[Desktop Entry]\nType=Application\nHidden=true\n";
    let live = "[Desktop Entry]\nType=Application\n";
    assert!(is_hidden_entry(hidden));
    assert!(!is_hidden_entry(live));
}

#[test]
fn hidden_detection_ignores_case_and_surrounding_space() {
    assert!(is_hidden_entry("a\n  HIDDEN=True \r\nb"));
    assert!(is_hidden_entry("hidden=true"));
    assert!(!is_hidden_entry("Hidden=truex"));
    assert!(!is_enabled(None));
    assert!(!is_enabled(Some("Hidden=true")));
    assert!(is_enabled(Some("[Desktop Entry]\n")));
}

#[test]
fn the_entry_points_at_the_given_binary() {
    let entry = desktop_entry("/usr/bin/syncerting-tray", None);
    assert!(entry.starts_with("[Desktop Entry]\n"));
    assert!(entry.contains("Type=Application"));
    assert!(entry.contains("\nExec=/usr/bin/syncerting-tray\n"));
    let styled = desktop_entry("/home/a b/tray", Some(" colour "));
    assert!(styled.contains("\nExec=env SYNCERTING_ICON_STYLE=colour \"/home/a b/tray\"\n"));
    let blank = desktop_entry("/t", Some("  "));
    assert!(blank.contains("\nExec=/t\n"));
}

#[test]
fn the_entry_lives_under_autostart() {
    assert_eq!(entry_path_in("/home/u/.config"), "/home/u/.config/autostart/syncerting-tray.desktop");
}

#[test]
fn a_written_entry_reads_as_enabled() {
    for exe in ["/usr/bin/syncerting-tray", "/home/a b/hidden=true/tray", ""] {
        for style in [None, Some("colour"), Some(" Hidden=true ")] {
            assert!(is_enabled(Some(&desktop_entry(exe, style))));
        }
    }
    assert!(!is_enabled(None));
}
