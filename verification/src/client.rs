//! What the tray makes of Syncthing's REST API: completion figures, the
//! snapshot assembled from the endpoints' answers, event handling and the
//! request targets.

use vstd::prelude::*;
use vstd::string::*;
use crate::model::{FolderState, FolderView, folder_views, view_display_name};
use crate::order::{sort_by_key, sorted_by_key, lex_le_str, back_pos, firsts, lemma_sort_by_given_keys, lemma_sort_is_sorted,
    lemma_sort_permutes, pair_key, with_keys};
use crate::text::{owned, str_eq, push_decimal, spec_decimal};

verus! {

/// Bytes of a folder that are in sync: the global size less what is still
/// needed, never below zero.
pub open spec fn done_bytes(global_bytes: u64, need_bytes: u64) -> int {
    if need_bytes >= global_bytes {
        0
    } else {
        global_bytes - need_bytes
    }
}

/// Percentage of a folder that is in sync, computed exactly from the byte
/// counts and rounded to a whole percent, an exact half going to the even
/// neighbour. An empty folder is fully in sync.
pub open spec fn spec_completion_percent(global_bytes: u64, need_bytes: u64) -> int {
    if global_bytes == 0 {
        100
    } else {
        let num = 100 * done_bytes(global_bytes, need_bytes);
        let q = num / (global_bytes as int);
        let r = num % (global_bytes as int);
        if 2 * r < global_bytes {
            q
        } else if 2 * r > global_bytes {
            q + 1
        } else if q % 2 == 0 {
            q
        } else {
            q + 1
        }
    }
}

/// Whether a folder counts as up to date: at least 99.995% in sync.
pub open spec fn spec_up_to_date(global_bytes: u64, need_bytes: u64) -> bool {
    global_bytes == 0 || 20000 * done_bytes(global_bytes, need_bytes) >= 19999 * global_bytes
}

/// Percentage of a folder that is in sync, in whole percent.
pub fn completion_percent(global_bytes: u64, need_bytes: u64) -> (r: u64)
    ensures
        r == spec_completion_percent(global_bytes, need_bytes),
        r <= 100,
{
    if global_bytes == 0 {
        return 100;
    }
    let done: u64 = if need_bytes >= global_bytes { 0 } else { global_bytes - need_bytes };
    let g: u128 = global_bytes as u128;
    let num: u128 = 100u128 * (done as u128);
    let q: u128 = num / g;
    let r: u128 = num % g;
    assert(q <= 100) by (nonlinear_arith)
        requires
            num == 100 * done,
            done <= g,
            g > 0,
            q == num / g,
    {
        assert(num <= 100 * g);
    }
    proof {
        vstd::arithmetic::div_mod::lemma_fundamental_div_mod(num as int, g as int);
    }
    assert(q == 100 ==> r == 0) by (nonlinear_arith)
        requires
            num == 100 * done,
            done <= g,
            g > 0,
            q == num / g,
            r == num % g,
            num == q * g + r,
    {
    }
    let twice: u128 = 2 * r;
    if twice < g {
        q as u64
    } else if twice > g {
        (q + 1) as u64
    } else if q % 2 == 0 {
        q as u64
    } else {
        (q + 1) as u64
    }
}

/// Whether a folder is close enough to complete to read as "up to date".
pub fn up_to_date(global_bytes: u64, need_bytes: u64) -> (r: bool)
    ensures
        r == spec_up_to_date(global_bytes, need_bytes),
{
    if global_bytes == 0 {
        return true;
    }
    let done: u64 = if need_bytes >= global_bytes { 0 } else { global_bytes - need_bytes };
    20000u128 * (done as u128) >= 19999u128 * (global_bytes as u128)
}


/// One entry of `/rest/config/folders`.
#[derive(Debug, Clone)]
pub struct FolderConfig {
    pub id: String,
    pub label: String,
    pub paused: bool,
    pub path: String,
}

/// The fields of `/rest/db/status` the tray uses.
#[derive(Debug, Clone)]
pub struct DbStatus {
    pub state: String,
    pub global_bytes: u64,
    pub need_bytes: u64,
    pub errors: u64,
}

/// One entry of the `connections` map of `/rest/system/connections`.
#[derive(Debug, Clone)]
pub struct Connection {
    pub device_id: String,
    pub connected: bool,
}

/// An entry of `/rest/events`.
#[derive(Debug, Clone)]
pub struct Event {
    pub id: u64,
    pub event_type: String,
}

/// A full snapshot of what the tray displays.
pub struct Snapshot {
    pub folders: Vec<FolderState>,
    pub devices_connected: usize,
    pub devices_total: usize,
    pub version: String,
}

/// Unicode lower-casing as `str::to_lowercase` performs it.
pub uninterp spec fn unicode_lowercase(s: Seq<char>) -> Seq<char>;

/// Calls `str::to_lowercase`; its result is named `unicode_lowercase`.
#[verifier::external_body]
fn to_lowercase(s: &str) -> (r: String)
    ensures
        r@ == unicode_lowercase(s@),
{
    s.to_lowercase()
}

/// The key the folder list is ordered by: the display name, lower-cased.
pub open spec fn folder_sort_key(v: FolderView) -> Seq<char> {
    unicode_lowercase(view_display_name(v))
}

pub open spec fn folder_key() -> spec_fn(FolderView) -> Seq<char> {
    |v: FolderView| folder_sort_key(v)
}

/// What a folder shows, from its configuration and its database status. A
/// paused folder reads as "paused" whatever its database says; a status that
/// could not be fetched reads as "unknown" and empty.
pub open spec fn spec_folder_view(c: FolderConfig, st: Option<DbStatus>) -> FolderView {
    FolderView {
        id: c.id@,
        label: c.label@,
        paused: c.paused,
        path: c.path@,
        state: if c.paused {
            "paused"@
        } else {
            match st {
                Some(s) => s.state@,
                None => "unknown"@,
            }
        },
        global_bytes: match st {
            Some(s) => s.global_bytes,
            None => 0,
        },
        need_bytes: match st {
            Some(s) => s.need_bytes,
            None => 0,
        },
        errors: match st {
            Some(s) => s.errors,
            None => 0,
        },
    }
}

/// Builds a folder's state from its configuration and database status.
pub fn folder_state(config: FolderConfig, status: Option<DbStatus>) -> (r: FolderState)
    ensures
        r@ == spec_folder_view(config, status),
{
    let status = match status {
        Some(s) => s,
        None => DbStatus { state: owned("unknown"), global_bytes: 0, need_bytes: 0, errors: 0 },
    };
    let state = if config.paused {
        owned("paused")
    } else {
        status.state
    };
    FolderState {
        id: config.id,
        label: config.label,
        paused: config.paused,
        path: config.path,
        state,
        global_bytes: status.global_bytes,
        need_bytes: status.need_bytes,
        errors: status.errors,
    }
}

pub open spec fn key_views(keys: Seq<String>) -> Seq<Seq<char>> {
    keys.map_values(|k: String| k@)
}

/// Orders folders by the given keys, `keys[i]` being the key of `items[i]`,
/// keeping the original order among equal keys.
pub fn sort_folders_by_keys(items: Vec<FolderState>, keys: Vec<String>) -> (r: Vec<FolderState>)
    requires
        items@.len() == keys@.len(),
    ensures
        folder_views(r@) == firsts(sort_by_key(with_keys(folder_views(items@), key_views(keys@)), pair_key())),
{
    let ghost orig = with_keys(folder_views(items@), key_views(keys@));
    let ghost views = folder_views(items@);
    let n = items.len();
    let mut items = items;
    let mut res: Vec<FolderState> = Vec::new();
    let mut res_keys: Vec<String> = Vec::new();
    let mut i: usize = 0;
    while i < n
        invariant
            n == orig.len(),
            n == keys@.len(),
            orig == with_keys(views, key_views(keys@)),
            i <= n,
            folder_views(items@) == views.skip(i as int),
            res_keys@.len() == res@.len(),
            with_keys(folder_views(res@), key_views(res_keys@)) == sort_by_key(orig.take(i as int), pair_key()),
        decreases n - i,
    {
        assert(items@.len() == n - i) by {
            assert(folder_views(items@).len() == items@.len());
        }
        let ghost items_before = items@;
        let x = items.remove(0);
        let ghost xv = x@;
        assert(xv == views[i as int]) by {
            assert(folder_views(items_before)[0] == views.skip(i as int)[0]);
        }
        let k = keys[i].clone();
        let ghost rv = with_keys(folder_views(res@), key_views(res_keys@));
        let mut j: usize = res.len();
        assert(rv.take(j as int) =~= rv);
        while j > 0
            invariant
                j <= res@.len(),
                res_keys@.len() == res@.len(),
                rv == with_keys(folder_views(res@), key_views(res_keys@)),
                back_pos(rv, pair_key(), k@) == back_pos(rv.take(j as int), pair_key(), k@),
            ensures
                back_pos(rv, pair_key(), k@) == j,
            decreases j,
        {
            if lex_le_str(res_keys[j - 1].as_str(), k.as_str()) {
                assert(rv.take(j as int).last() == rv[j - 1]);
                assert(pair_key()(rv[j - 1]) == res_keys@[j - 1]@);
                break;
            }
            assert(rv.take(j as int).drop_last() =~= rv.take(j - 1));
            j -= 1;
        }
        res.insert(j, x);
        res_keys.insert(j, k);
        proof {
            assert(orig.take(i + 1).drop_last() =~= orig.take(i as int));
            assert(orig.take(i + 1).last() == (xv, k@));
            assert(with_keys(folder_views(res@), key_views(res_keys@)) =~= rv.insert(j as int, (xv, k@)));
            assert(items@ =~= items_before.subrange(1, items_before.len() as int));
            assert(folder_views(items@) =~= folder_views(items_before).subrange(1, items_before.len() as int));
            assert(folder_views(items@) =~= views.skip(i + 1));
        }
        i += 1;
    }
    proof {
        assert(orig.take(n as int) =~= orig);
        assert(folder_views(res@) =~= firsts(with_keys(folder_views(res@), key_views(res_keys@))));
    }
    res
}

/// Orders folders case-insensitively by display name, keeping the original
/// order among equal names.
pub fn sort_folders(items: Vec<FolderState>) -> (r: Vec<FolderState>)
    ensures
        folder_views(r@) == sort_by_key(folder_views(items@), folder_key()),
{
    let n = items.len();
    let mut keys: Vec<String> = Vec::new();
    let mut i: usize = 0;
    while i < n
        invariant
            n == items@.len(),
            i <= n,
            keys@.len() == i,
            forall|k: int| 0 <= k < i ==> (#[trigger] keys@[k])@ == folder_sort_key(items@[k]@),
        decreases n - i,
    {
        keys.push(to_lowercase(items[i].display_name()));
        i += 1;
    }
    proof {
        let v = folder_views(items@);
        assert(key_views(keys@) =~= v.map_values(folder_key()));
        lemma_sort_by_given_keys(v, folder_key());
    }
    sort_folders_by_keys(items, keys)
}

/// Whether the connections map says `id` is connected: the first entry for
/// `id` decides, and a device with no entry is not connected.
pub open spec fn connection_of(conns: Seq<Connection>, id: Seq<char>) -> Option<bool>
    decreases conns.len(),
{
    if conns.len() == 0 {
        None
    } else if conns[0].device_id@ == id {
        Some(conns[0].connected)
    } else {
        connection_of(conns.drop_first(), id)
    }
}

/// Number of configured devices other than the local one.
pub open spec fn count_remote(devices: Seq<String>, local: Seq<char>) -> nat
    decreases devices.len(),
{
    if devices.len() == 0 {
        0
    } else {
        count_remote(devices.drop_last(), local) + if devices.last()@ != local {
            1nat
        } else {
            0nat
        }
    }
}

/// Number of remote devices that the connections map reports connected.
pub open spec fn count_connected(devices: Seq<String>, local: Seq<char>, conns: Seq<Connection>) -> nat
    decreases devices.len(),
{
    if devices.len() == 0 {
        0
    } else {
        count_connected(devices.drop_last(), local, conns) + if devices.last()@ != local
            && connection_of(conns, devices.last()@) == Some(true) {
            1nat
        } else {
            0nat
        }
    }
}

/// Whether `id` is reported connected.
pub fn is_connected(conns: &Vec<Connection>, id: &str) -> (r: bool)
    ensures
        r == (connection_of(conns@, id@) == Some(true)),
{
    let n = conns.len();
    let mut i: usize = 0;
    assert(conns@.skip(0) =~= conns@);
    while i < n
        invariant
            n == conns@.len(),
            i <= n,
            connection_of(conns@, id@) == connection_of(conns@.skip(i as int), id@),
        decreases n - i,
    {
        let c = &conns[i];
        assert(conns@.skip(i as int)[0] == conns@[i as int]);
        if str_eq(c.device_id.as_str(), id) {
            return c.connected;
        }
        assert(conns@.skip(i as int).drop_first() =~= conns@.skip(i + 1));
        i += 1;
    }
    false
}

/// The folders in the order the API listed them, before sorting.
pub open spec fn listed_folders(folders: Seq<FolderConfig>, statuses: Seq<Option<DbStatus>>) -> Seq<FolderView> {
    Seq::new(folders.len(), |i: int| spec_folder_view(folders[i], statuses[i]))
}

/// Assembles what the tray displays from the answers of the REST endpoints:
/// the version, the folder configurations with the database status fetched
/// for each (`None` where that request failed), the configured device ids,
/// the connections map and the local device id.
///
/// The local device appears in the device list but never in connections, so
/// it is left out of both device counts. Folders are ordered by lower-cased
/// display name.
pub fn build_snapshot(
    version: String,
    folders: Vec<FolderConfig>,
    statuses: Vec<Option<DbStatus>>,
    devices: &Vec<String>,
    connections: &Vec<Connection>,
    local_id: &str,
) -> (r: Snapshot)
    requires
        folders@.len() == statuses@.len(),
        unique_devices(connections@),
    ensures
        r.version == version,
        r.devices_total == count_remote(devices@, local_id@),
        r.devices_connected == count_connected(devices@, local_id@, connections@),
        folder_views(r.folders@) == sort_by_key(listed_folders(folders@, statuses@), folder_key()),
{
    let nd = devices.len();
    let mut total: usize = 0;
    let mut connected: usize = 0;
    let mut i: usize = 0;
    while i < nd
        invariant
            nd == devices@.len(),
            i <= nd,
            total == count_remote(devices@.take(i as int), local_id@),
            connected == count_connected(devices@.take(i as int), local_id@, connections@),
            connected <= total <= i,
        decreases nd - i,
    {
        let d = devices[i].as_str();
        proof {
            let t = devices@.take(i + 1);
            assert(t.drop_last() =~= devices@.take(i as int));
            assert(t.last() == devices@[i as int]);
        }
        if !str_eq(d, local_id) {
            total += 1;
            if is_connected(connections, d) {
                connected += 1;
            }
        }
        i += 1;
    }
    assert(devices@.take(nd as int) =~= devices@);

    let ghost listed = listed_folders(folders@, statuses@);
    let nf = folders.len();
    let mut folders = folders;
    let mut statuses = statuses;
    let mut unsorted: Vec<FolderState> = Vec::new();
    let mut j: usize = 0;
    while j < nf
        invariant
            nf == listed.len(),
            j <= nf,
            folders@.len() == nf - j,
            statuses@.len() == nf - j,
            forall|k: int| 0 <= k < nf - j ==> spec_folder_view(#[trigger] folders@[k], statuses@[k]) == listed[k + j],
            folder_views(unsorted@) == listed.take(j as int),
        decreases nf - j,
    {
        let ghost fb = folders@;
        let ghost sb = statuses@;
        let c = folders.remove(0);
        let s = statuses.remove(0);
        let f = folder_state(c, s);
        let ghost ub = unsorted@;
        unsorted.push(f);
        proof {
            assert(spec_folder_view(fb[0], sb[0]) == listed[j as int]);
            assert(folder_views(unsorted@) =~= listed.take(j + 1)) by {
                assert(folder_views(unsorted@) =~= folder_views(ub).push(f@));
                assert(listed.take(j + 1) =~= listed.take(j as int).push(listed[j as int]));
            }
            assert forall|k: int| 0 <= k < nf - (j + 1) implies spec_folder_view(#[trigger] folders@[k], statuses@[k]) == listed[k + j + 1] by {
                assert(folders@[k] == fb[k + 1]);
                assert(statuses@[k] == sb[k + 1]);
            }
        }
        j += 1;
    }
    assert(listed.take(nf as int) =~= listed);
    let sorted = sort_folders(unsorted);
    Snapshot { folders: sorted, devices_connected: connected, devices_total: total, version }
}

/// A snapshot's folder list is ordered by lower-cased display name and holds
/// exactly the listed folders, each once.
pub proof fn law_snapshot_folders_sorted_permutation(folders: Seq<FolderConfig>, statuses: Seq<Option<DbStatus>>)
    requires
        folders.len() == statuses.len(),
    ensures
        sorted_by_key(sort_by_key(listed_folders(folders, statuses), folder_key()), folder_key()),
        sort_by_key(listed_folders(folders, statuses), folder_key()).to_multiset()
            =~= listed_folders(folders, statuses).to_multiset(),
{
    lemma_sort_is_sorted(listed_folders(folders, statuses), folder_key());
    lemma_sort_permutes(listed_folders(folders, statuses), folder_key());
}

/// Each device appears at most once in the connections map, as it does in
/// the JSON object `/rest/system/connections` answers with.
pub open spec fn unique_devices(conns: Seq<Connection>) -> bool {
    forall|i: int, j: int|
        0 <= i < j < conns.len() ==> (#[trigger] conns[i]).device_id@ != (#[trigger] conns[j]).device_id@
}

/// With each device listed once, what the connections map says of a device
/// is its own entry: a device counts as connected exactly when its entry
/// says so, and as absent when it has none.
pub proof fn law_connection_is_the_devices_entry(conns: Seq<Connection>, id: Seq<char>)
    requires
        unique_devices(conns),
    ensures
        forall|i: int| 0 <= i < conns.len() && (#[trigger] conns[i]).device_id@ == id ==> connection_of(conns, id)
            == Some(conns[i].connected),
        (forall|i: int| 0 <= i < conns.len() ==> (#[trigger] conns[i]).device_id@ != id) ==> connection_of(
            conns,
            id,
        ) is None,
    decreases conns.len(),
{
    if conns.len() > 0 {
        let rest = conns.drop_first();
        assert(unique_devices(rest)) by {
            assert forall|i: int, j: int| 0 <= i < j < rest.len() implies (#[trigger] rest[i]).device_id@
                != (#[trigger] rest[j]).device_id@ by {
                assert(rest[i] == conns[i + 1] && rest[j] == conns[j + 1]);
            }
        }
        law_connection_is_the_devices_entry(rest, id);
        assert forall|i: int| 0 <= i < conns.len() && (#[trigger] conns[i]).device_id@ == id implies connection_of(
            conns,
            id,
        ) == Some(conns[i].connected) by {
            if i > 0 {
                assert(conns[0].device_id@ != conns[i].device_id@);
                assert(rest[i - 1] == conns[i]);
            }
        }
        if forall|i: int| 0 <= i < conns.len() ==> (#[trigger] conns[i]).device_id@ != id {
            assert forall|i: int| 0 <= i < rest.len() implies (#[trigger] rest[i]).device_id@ != id by {
                assert(rest[i] == conns[i + 1]);
            }
        }
    }
}

/// No more devices are counted connected than there are remote devices, and
/// the local device is never counted.
pub proof fn law_connected_within_remote(devices: Seq<String>, local: Seq<char>, conns: Seq<Connection>)
    ensures
        count_connected(devices, local, conns) <= count_remote(devices, local),
        count_remote(devices, local) <= devices.len(),
    decreases devices.len(),
{
    if devices.len() > 0 {
        law_connected_within_remote(devices.drop_last(), local, conns);
    }
}


/// How long the events endpoint is allowed to hold a request open, in seconds.
pub const EVENT_TIMEOUT_SECS: u64 = 55;

/// The largest event id in a non-empty list.
pub open spec fn max_event_id(events: Seq<Event>) -> u64
    recommends
        events.len() > 0,
    decreases events.len(),
{
    if events.len() <= 1 {
        events[0].id
    } else {
        let m = max_event_id(events.drop_last());
        if events.last().id > m {
            events.last().id
        } else {
            m
        }
    }
}

/// The cursor after a poll: the largest event id seen, or `since` unchanged
/// when there were no events.
pub open spec fn spec_next_cursor(events: Seq<Event>, since: u64) -> u64 {
    if events.len() == 0 {
        since
    } else {
        max_event_id(events)
    }
}

/// The event-stream cursor to poll from next.
pub fn next_cursor(events: &Vec<Event>, since: u64) -> (r: u64)
    ensures
        r == spec_next_cursor(events@, since),
{
    let n = events.len();
    if n == 0 {
        return since;
    }
    let mut m = events[0].id;
    let mut i: usize = 1;
    assert(events@.take(1).len() == 1);
    while i < n
        invariant
            n == events@.len(),
            1 <= i <= n,
            m == max_event_id(events@.take(i as int)),
        decreases n - i,
    {
        let id = events[i].id;
        assert(events@.take(i + 1).drop_last() =~= events@.take(i as int));
        if id > m {
            m = id;
        }
        i += 1;
    }
    assert(events@.take(n as int) =~= events@);
    m
}

/// The next cursor is at least every event id seen.
pub proof fn law_cursor_covers_every_event(events: Seq<Event>, since: u64, i: int)
    requires
        0 <= i < events.len(),
    ensures
        spec_next_cursor(events, since) >= events[i].id,
    decreases events.len(),
{
    if events.len() > 1 && i < events.len() - 1 {
        law_cursor_covers_every_event(events.drop_last(), since, i);
    }
}

/// Every event type that can change what the tray shows nudges a refresh:
/// folder states, summaries, completion, errors, pauses and scans, device
/// connections and pauses, saved configuration and download progress.
pub proof fn law_display_events_are_interesting()
    ensures
        spec_is_interesting("StateChanged"@),
        spec_is_interesting("FolderSummary"@),
        spec_is_interesting("FolderCompletion"@),
        spec_is_interesting("FolderErrors"@),
        spec_is_interesting("FolderPaused"@),
        spec_is_interesting("FolderResumed"@),
        spec_is_interesting("FolderScanProgress"@),
        spec_is_interesting("DeviceConnected"@),
        spec_is_interesting("DeviceDisconnected"@),
        spec_is_interesting("DevicePaused"@),
        spec_is_interesting("DeviceResumed"@),
        spec_is_interesting("ConfigSaved"@),
        spec_is_interesting("DownloadProgress"@),
{
}

/// Event types that mean the displayed state may have changed.
pub open spec fn spec_is_interesting(t: Seq<char>) -> bool {
    ||| t == "StateChanged"@
    ||| t == "FolderSummary"@
    ||| t == "FolderCompletion"@
    ||| t == "FolderErrors"@
    ||| t == "FolderPaused"@
    ||| t == "FolderResumed"@
    ||| t == "FolderScanProgress"@
    ||| t == "DeviceConnected"@
    ||| t == "DeviceDisconnected"@
    ||| t == "DevicePaused"@
    ||| t == "DeviceResumed"@
    ||| t == "ConfigSaved"@
    ||| t == "DownloadProgress"@
}

/// Event types that mean the displayed state may have changed.
pub fn is_interesting(event_type: &str) -> (r: bool)
    ensures
        r == spec_is_interesting(event_type@),
{
    str_eq(event_type, "StateChanged") || str_eq(event_type, "FolderSummary") || str_eq(
        event_type,
        "FolderCompletion",
    ) || str_eq(event_type, "FolderErrors") || str_eq(event_type, "FolderPaused") || str_eq(
        event_type,
        "FolderResumed",
    ) || str_eq(event_type, "FolderScanProgress") || str_eq(event_type, "DeviceConnected")
        || str_eq(event_type, "DeviceDisconnected") || str_eq(event_type, "DevicePaused")
        || str_eq(event_type, "DeviceResumed") || str_eq(event_type, "ConfigSaved") || str_eq(
        event_type,
        "DownloadProgress",
    )
}

/// Whether any event in the list is interesting.
pub fn any_interesting(events: &Vec<Event>) -> (r: bool)
    ensures
        r == exists|i: int| 0 <= i < events@.len() && spec_is_interesting(#[trigger] events@[i].event_type@),
{
    let n = events.len();
    let mut i: usize = 0;
    while i < n
        invariant
            n == events@.len(),
            i <= n,
            forall|k: int| 0 <= k < i ==> !spec_is_interesting(#[trigger] events@[k].event_type@),
        decreases n - i,
    {
        if is_interesting(events[i].event_type.as_str()) {
            return true;
        }
        i += 1;
    }
    false
}

/// Bytes left as they are in a query parameter.
pub open spec fn is_unreserved_byte(b: u8) -> bool {
    ||| 65 <= b <= 90
    ||| 97 <= b <= 122
    ||| 48 <= b <= 57
    ||| b == 45
    ||| b == 95
    ||| b == 46
    ||| b == 126
}

/// Upper-case hexadecimal digit.
pub open spec fn hex_upper(d: int) -> char {
    if d < 10 {
        (48 + d) as char
    } else {
        (55 + d) as char
    }
}

/// How one byte is written in a percent-encoded value.
pub open spec fn encode_byte(b: u8) -> Seq<char> {
    if is_unreserved_byte(b) {
        seq![b as char]
    } else {
        seq!['%', hex_upper(b as int / 16), hex_upper(b as int % 16)]
    }
}

/// Percent-encoding of a byte string, byte by byte.
pub open spec fn encode_bytes(bs: Seq<u8>) -> Seq<char>
    decreases bs.len(),
{
    if bs.len() == 0 {
        Seq::empty()
    } else {
        encode_bytes(bs.drop_last()) + encode_byte(bs.last())
    }
}

/// Percent-encoding of a string: each byte of its UTF-8 encoding.
pub open spec fn spec_urlencode(s: Seq<char>) -> Seq<char> {
    encode_bytes(vstd::utf8::encode_utf8(s))
}

fn hex_digit(d: u8) -> (r: char)
    requires
        d < 16,
    ensures
        r == hex_upper(d as int),
{
    if d < 10 {
        (48u8 + d) as char
    } else {
        (55u8 + d) as char
    }
}

/// Percent-encode a query parameter value.
///
/// Folder IDs are user-chosen and may contain spaces or punctuation, so they
/// cannot be interpolated raw.
pub fn urlencode(value: &str) -> (r: String)
    ensures
        r@ == spec_urlencode(value@),
{
    let bytes = value.as_bytes();
    let n = bytes.len();
    let mut out = String::new();
    let mut i: usize = 0;
    while i < n
        invariant
            n == bytes@.len(),
            bytes@ == vstd::utf8::encode_utf8(value@),
            i <= n,
            out@ == encode_bytes(bytes@.take(i as int)),
        decreases n - i,
    {
        let b = bytes[i];
        let ghost before = out@;
        if (65 <= b && b <= 90) || (97 <= b && b <= 122) || (48 <= b && b <= 57) || b == 45 || b
            == 95 || b == 46 || b == 126 {
            out.push(b as char);
        } else {
            out.push('%');
            out.push(hex_digit(b / 16));
            out.push(hex_digit(b % 16));
        }
        proof {
            assert(bytes@.take(i + 1).drop_last() =~= bytes@.take(i as int));
            assert(bytes@.take(i + 1).last() == b);
            assert(out@ =~= before + encode_byte(b));
        }
        i += 1;
    }
    assert(bytes@.take(n as int) =~= bytes@);
    out
}

/// Whether `c` may stand raw in a percent-encoded value: `A`-`Z`, `a`-`z`,
/// `0`-`9`, `-`, `_`, `.` and `~`.
pub open spec fn raw_allowed(c: u32) -> bool {
    ||| 65 <= c <= 90
    ||| 97 <= c <= 122
    ||| 48 <= c <= 57
    ||| c == 45
    ||| c == 95
    ||| c == 46
    ||| c == 126
}

/// `c` is the upper-case hexadecimal digit for `d`.
pub open spec fn upper_hex_digit_of(c: char, d: int) -> bool {
    ||| 48 <= (c as u32) <= 57 && c as u32 - 48 == d
    ||| 65 <= (c as u32) <= 70 && c as u32 - 55 == d
}

/// Percent-encoding keeps exactly the bytes `A`-`Z`, `a`-`z`, `0`-`9`, `-`,
/// `_`, `.` and `~`, and writes every other byte as `%` and its two
/// upper-case hexadecimal digits, so no other byte stands raw in the result.
pub proof fn law_urlencode_escapes_every_other_byte(b: u8, bs: Seq<u8>, k: int)
    requires
        0 <= k < encode_bytes(bs).len(),
    ensures
        raw_allowed(b as u32) ==> encode_byte(b) == seq![b as char],
        !raw_allowed(b as u32) ==> {
            &&& encode_byte(b).len() == 3
            &&& encode_byte(b)[0] == '%'
            &&& upper_hex_digit_of(encode_byte(b)[1], b as int / 16)
            &&& upper_hex_digit_of(encode_byte(b)[2], b as int % 16)
        },
        raw_allowed(encode_bytes(bs)[k] as u32) || encode_bytes(bs)[k] == '%',
    decreases bs.len(),
{
    assert(b as int / 16 < 16 && b as int % 16 < 16);
    let prev = encode_bytes(bs.drop_last());
    if k < prev.len() {
        law_urlencode_escapes_every_other_byte(b, bs.drop_last(), k);
    } else {
        let c = bs.last();
        assert(c as int / 16 < 16 && c as int % 16 < 16);
    }
}

/// Percent-encoding writes only unreserved characters, `%` and upper-case
/// hexadecimal digits.
pub proof fn law_urlencode_alphabet(bs: Seq<u8>, i: int)
    requires
        0 <= i < encode_bytes(bs).len(),
    ensures
        ({
            let c = encode_bytes(bs)[i] as u32;
            ||| is_unreserved_byte(c as u8) && c < 128
            ||| c == 37
            ||| 48 <= c <= 57
            ||| 65 <= c <= 70
        }),
    decreases bs.len(),
{
    let prev = encode_bytes(bs.drop_last());
    if i < prev.len() {
        law_urlencode_alphabet(bs.drop_last(), i);
    } else {
        let b = bs.last();
        assert(b as int / 16 < 16 && b as int % 16 < 16);
    }
}

/// The value of a hexadecimal digit, in either case.
pub open spec fn hex_value(c: char) -> int {
    let x = c as u32;
    if 48 <= x <= 57 {
        x - 48
    } else if 65 <= x <= 70 {
        x - 55
    } else if 97 <= x <= 102 {
        x - 87
    } else {
        0
    }
}

/// Percent-decoding: `%` and two hexadecimal digits stand for one byte, and
/// any other character for its own code.
pub open spec fn percent_decode(cs: Seq<char>) -> Seq<u8>
    decreases cs.len(),
{
    if cs.len() == 0 {
        Seq::empty()
    } else if cs[0] == '%' && cs.len() >= 3 {
        seq![(hex_value(cs[1]) * 16 + hex_value(cs[2])) as u8] + percent_decode(cs.skip(3))
    } else {
        seq![cs[0] as u8] + percent_decode(cs.drop_first())
    }
}

/// Number of bytes that percent-encoding escapes.
pub open spec fn escaped_count(bs: Seq<u8>) -> nat
    decreases bs.len(),
{
    if bs.len() == 0 {
        0
    } else {
        escaped_count(bs.drop_last()) + if is_unreserved_byte(bs.last()) {
            0nat
        } else {
            1nat
        }
    }
}

proof fn lemma_encode_front(bs: Seq<u8>)
    requires
        bs.len() > 0,
    ensures
        encode_bytes(bs) == encode_byte(bs[0]) + encode_bytes(bs.drop_first()),
    decreases bs.len(),
{
    if bs.len() == 1 {
        assert(encode_bytes(bs.drop_last()) == Seq::<char>::empty());
        assert(encode_bytes(bs.drop_first()) == Seq::<char>::empty());
        assert(bs.last() == bs[0]);
        assert(encode_bytes(bs) == encode_bytes(bs.drop_last()) + encode_byte(bs.last()));
        assert(encode_bytes(bs) =~= encode_byte(bs[0]) + encode_bytes(bs.drop_first()));
    } else {
        lemma_encode_front(bs.drop_last());
        assert(bs.drop_last().drop_first() =~= bs.drop_first().drop_last());
        assert(bs.drop_first().last() == bs.last());
        assert(bs.drop_last()[0] == bs[0]);
        assert(encode_bytes(bs) =~= encode_byte(bs[0]) + encode_bytes(bs.drop_first()));
    }
}

proof fn lemma_decode_byte(b: u8, rest: Seq<char>)
    ensures
        percent_decode(encode_byte(b) + rest) == seq![b] + percent_decode(rest),
{
    let e = encode_byte(b) + rest;
    let hi = b as int / 16;
    let lo = b as int % 16;
    if is_unreserved_byte(b) {
        assert(e[0] == b as char);
        assert(e.drop_first() =~= rest);
        assert((b as char) as u8 == b);
    } else {
        assert(e[0] == '%');
        assert(e[1] == hex_upper(hi));
        assert(e[2] == hex_upper(lo));
        assert(e.skip(3) =~= rest);
        assert(hex_value(hex_upper(hi)) == hi);
        assert(hex_value(hex_upper(lo)) == lo);
        assert(hi * 16 + lo == b as int);
    }
}

proof fn lemma_decode_encoded(bs: Seq<u8>)
    ensures
        percent_decode(encode_bytes(bs)) == bs,
    decreases bs.len(),
{
    if bs.len() > 0 {
        lemma_encode_front(bs);
        lemma_decode_encoded(bs.drop_first());
        lemma_decode_byte(bs[0], encode_bytes(bs.drop_first()));
        assert(seq![bs[0]] + bs.drop_first() =~= bs);
    }
}

proof fn lemma_encoded_len(bs: Seq<u8>)
    ensures
        encode_bytes(bs).len() == bs.len() + 2 * escaped_count(bs),
    decreases bs.len(),
{
    if bs.len() > 0 {
        lemma_encoded_len(bs.drop_last());
    }
}

/// Percent-decoding a percent-encoded value gives back the UTF-8 bytes of the
/// original, and every escaped byte adds two characters to its length.
pub proof fn law_urlencode_round_trip(s: Seq<char>)
    ensures
        percent_decode(spec_urlencode(s)) == vstd::utf8::encode_utf8(s),
        spec_urlencode(s).len() == vstd::utf8::encode_utf8(s).len() + 2 * escaped_count(
            vstd::utf8::encode_utf8(s),
        ),
{
    lemma_decode_encoded(vstd::utf8::encode_utf8(s));
    lemma_encoded_len(vstd::utf8::encode_utf8(s));
}

/// Request target for a folder's database status.
pub fn folder_status_path(folder: &str) -> (r: String)
    ensures
        r@ == "/rest/db/status?folder="@ + spec_urlencode(folder@),
{
    let mut out = owned("/rest/db/status?folder=");
    let enc = urlencode(folder);
    out.append(enc.as_str());
    out
}

/// Request target for a rescan: of every folder, or of one.
pub fn rescan_path(folder: Option<&str>) -> (r: String)
    ensures
        folder is None ==> r@ == "/rest/db/scan"@,
        folder matches Some(f) ==> r@ == "/rest/db/scan?folder="@ + spec_urlencode(f@),
{
    match folder {
        None => owned("/rest/db/scan"),
        Some(f) => {
            let mut out = owned("/rest/db/scan?folder=");
            let enc = urlencode(f);
            out.append(enc.as_str());
            out
        },
    }
}

/// Endpoint that pauses or resumes every remote device.
pub fn pause_endpoint(paused: bool) -> (r: &'static str)
    ensures
        paused ==> r@ == "/rest/system/pause"@,
        !paused ==> r@ == "/rest/system/resume"@,
{
    if paused {
        "/rest/system/pause"
    } else {
        "/rest/system/resume"
    }
}

/// Request target for patching one folder's configuration.
pub fn folder_config_path(folder: &str) -> (r: String)
    ensures
        r@ == "/rest/config/folders/"@ + spec_urlencode(folder@),
{
    let mut out = owned("/rest/config/folders/");
    let enc = urlencode(folder);
    out.append(enc.as_str());
    out
}

/// Request target of the event long poll, starting after `since`.
pub fn events_path(since: u64) -> (r: String)
    ensures
        r@ == "/rest/events?since="@ + spec_decimal(since as nat) + "&timeout="@ + spec_decimal(
            EVENT_TIMEOUT_SECS as nat,
        ),
{
    let mut out = owned("/rest/events?since=");
    push_decimal(&mut out, since);
    out.append("&timeout=");
    push_decimal(&mut out, EVENT_TIMEOUT_SECS);
    out
}

/// Full URL of an API path under `base_url`.
pub fn endpoint_url(base_url: &str, path: &str) -> (r: String)
    ensures
        r@ == base_url@ + path@,
{
    let mut out = owned(base_url);
    out.append(path);
    out
}

} // verus!
