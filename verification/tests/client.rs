use syncerting_tray::client::{
    build_snapshot, completion_percent, events_path, folder_config_path, folder_status_path,
    folder_state, is_interesting, next_cursor, pause_endpoint, rescan_path, sort_folders,
    sort_folders_by_keys, urlencode, Connection, DbStatus, Event, FolderConfig,
};

#[test]
fn completion_handles_empty_folders() {
    assert_eq!(completion_percent(0, 0), 100);
}

#[test]
fn completion_is_proportional() {
    assert_eq!(completion_percent(100, 25), 75);
    assert_eq!(completion_percent(100, 0), 100);
}

#[test]
fn completion_never_goes_negative() {
    assert_eq!(completion_percent(100, 500), 0);
}

#[test]
fn completion_rounds_to_the_nearest_percent() {
    assert_eq!(completion_percent(3, 1), 67);
    assert_eq!(completion_percent(3, 2), 33);
    // Halves go to the even neighbour, as `{:.0}` renders them.
    assert_eq!(completion_percent(8, 7), 12);
    assert_eq!(completion_percent(200, 97), 52);
    assert_eq!(completion_percent(u64::MAX, 1), 100);
}

#[test]
fn urlencode_escapes_reserved_characters() {
    assert_eq!(urlencode("my folder"), "my%20folder");
    assert_eq!(urlencode("a&b=c"), "a%26b%3Dc");
    assert_eq!(urlencode("plain-id_1.2~3"), "plain-id_1.2~3");
}

#[test]
fn urlencode_encodes_each_utf8_byte() {
    assert_eq!(urlencode("\u{e9}"), "%C3%A9");
    assert_eq!(urlencode(""), "");
}

#[test]
fn interesting_events() {
    assert!(is_interesting("StateChanged"));
    assert!(is_interesting("DownloadProgress"));
    assert!(is_interesting("FolderScanProgress"));
    assert!(!is_interesting("Ping"));
    assert!(!is_interesting("statechanged"));
}

#[test]
fn the_cursor_is_the_largest_event_id() {
    let events = vec![
        Event { id: 7, event_type: "StateChanged".into() },
        Event { id: 9, event_type: "Ping".into() },
        Event { id: 8, event_type: "Ping".into() },
    ];
    assert_eq!(next_cursor(&events, 3), 9);
    assert_eq!(next_cursor(&Vec::new(), 3), 3);
}

#[test]
fn request_targets() {
    assert_eq!(folder_status_path("my folder"), "/rest/db/status?folder=my%20folder");
    assert_eq!(rescan_path(None), "/rest/db/scan");
    assert_eq!(rescan_path(Some("a b")), "/rest/db/scan?folder=a%20b");
    assert_eq!(pause_endpoint(true), "/rest/system/pause");
    assert_eq!(pause_endpoint(false), "/rest/system/resume");
    assert_eq!(folder_config_path("docs"), "/rest/config/folders/docs");
    assert_eq!(events_path(0), "/rest/events?since=0&timeout=55");
    assert_eq!(events_path(1234), "/rest/events?since=1234&timeout=55");
}

fn folder_config(id: &str, label: &str, paused: bool, path: &str) -> FolderConfig {
    FolderConfig { id: id.into(), label: label.into(), paused, path: path.into() }
}

#[test]
fn snapshot_assembly_matches_the_rest_api_answers() {
    let snapshot = build_snapshot(
        "v1.29.2".into(),
        vec![
            folder_config("docs", "Documents", false, "/home/x/Documents"),
            folder_config("code", "", true, "/home/x/code"),
        ],
        vec![
            Some(DbStatus { state: "syncing".into(), global_bytes: 1000, need_bytes: 250, errors: 0 }),
            Some(DbStatus { state: "idle".into(), global_bytes: 500, need_bytes: 0, errors: 0 }),
        ],
        &vec!["LOCAL".to_string(), "REMOTE1".to_string(), "REMOTE2".to_string()],
        &vec![
            Connection { device_id: "REMOTE1".into(), connected: true },
            Connection { device_id: "REMOTE2".into(), connected: false },
        ],
        "LOCAL",
    );

    assert_eq!(snapshot.version, "v1.29.2");
    // The local device is excluded from the connected ratio.
    assert_eq!(snapshot.devices_total, 2);
    assert_eq!(snapshot.devices_connected, 1);

    // Sorted case-insensitively by display name, so "code" precedes "Documents".
    assert_eq!(snapshot.folders.len(), 2);
    let code = &snapshot.folders[0];
    let docs = &snapshot.folders[1];

    assert_eq!(code.display_name(), "code");
    assert!(code.paused);
    // A paused folder reports "paused" regardless of its database state.
    assert_eq!(code.state, "paused");
    assert_eq!(code.summary(), "paused");

    assert_eq!(docs.display_name(), "Documents");
    assert_eq!(docs.state, "syncing");
    assert_eq!(docs.completion(), 75);
    assert_eq!(docs.summary(), "syncing 75%");
}

#[test]
fn a_missing_folder_status_reads_as_unknown() {
    let snapshot = build_snapshot(
        "v1.29.2".into(),
        vec![folder_config("docs", "Documents", false, "/tmp")],
        vec![None],
        &vec!["LOCAL".to_string()],
        &vec![],
        "LOCAL",
    );
    assert_eq!(snapshot.folders.len(), 1);
    assert_eq!(snapshot.folders[0].state, "unknown");
    assert_eq!(snapshot.devices_total, 0);
    assert_eq!(snapshot.devices_connected, 0);
}

#[test]
fn equal_names_keep_their_order() {
    let snapshot = build_snapshot(
        "v".into(),
        vec![
            folder_config("b", "Same", false, "/1"),
            folder_config("a", "same", false, "/2"),
            folder_config("c", "Alpha", false, "/3"),
        ],
        vec![None, None, None],
        &vec![],
        &vec![],
        "LOCAL",
    );
    let ids: Vec<&str> = snapshot.folders.iter().map(|f| f.id.as_str()).collect();
    assert_eq!(ids, vec!["c", "b", "a"]);
}

#[test]
fn folders_follow_the_given_keys_stably() {
    let items: Vec<_> = ["x", "y", "z", "w"]
        .iter()
        .map(|id| folder_state(folder_config(id, "", false, "/"), None))
        .collect();
    let keys = vec!["2".to_string(), "1".to_string(), "2".to_string(), "0".to_string()];
    let sorted = sort_folders_by_keys(items, keys);
    let ids: Vec<&str> = sorted.iter().map(|f| f.id.as_str()).collect();
    assert_eq!(ids, vec!["w", "y", "x", "z"]);
}

#[test]
fn sorting_ignores_case_by_lowercasing() {
    let items: Vec<_> = [("1", "banana"), ("2", "Cherry"), ("3", "apple")]
        .iter()
        .map(|(id, label)| folder_state(folder_config(id, label, false, "/"), None))
        .collect();
    let sorted = sort_folders(items);
    let ids: Vec<&str> = sorted.iter().map(|f| f.id.as_str()).collect();
    // Compared as written, "Cherry" would come first.
    assert_eq!(ids, vec!["3", "1", "2"]);
}

/// Percent-decoding, for checking encodings.
fn decode(s: &str) -> Vec<u8> {
    let b = s.as_bytes();
    let mut out = Vec::new();
    let mut i = 0;
    while i < b.len() {
        if b[i] == b'%' && i + 2 < b.len() {
            out.push(u8::from_str_radix(&s[i + 1..i + 3], 16).unwrap());
            i += 3;
        } else {
            out.push(b[i]);
            i += 1;
        }
    }
    out
}

#[test]
fn urlencoding_round_trips_and_grows_by_two_per_escape() {
    for value in ["my folder", "a&b=c", "plain-id_1.2~3", "\u{e9}t\u{e9} 100%", ""] {
        let encoded = urlencode(value);
        assert_eq!(decode(&encoded), value.as_bytes());
        let escaped = value.bytes().filter(|b| !(b.is_ascii_alphanumeric() || b"-_.~".contains(b))).count();
        assert_eq!(encoded.len(), value.len() + 2 * escaped);
    }
    assert_eq!(urlencode("\u{e9}"), "%C3%A9");
}

#[test]
fn each_device_is_read_from_its_own_entry() {
    let conns = vec![
        Connection { device_id: "A".into(), connected: false },
        Connection { device_id: "B".into(), connected: true },
    ];
    let snapshot = build_snapshot("v".into(), vec![], vec![], &vec!["A".into(), "B".into(), "C".into()], &conns, "L");
    assert_eq!(snapshot.devices_total, 3);
    assert_eq!(snapshot.devices_connected, 1);
}
