//! The state the tray renders, and the commands the menu can issue.

use vstd::prelude::*;
use vstd::string::*;
use crate::text::{str_eq, starts_with, is_prefix, owned, push_decimal, spec_decimal};
use crate::client::{completion_percent, spec_completion_percent, spec_up_to_date, up_to_date};

verus! {

/// Whether the systemd unit exists, and what it is doing.
#[derive(Debug, Clone, PartialEq, Eq)]
pub struct UnitState {
    /// False when no `syncthing.service` user unit is installed at all.
    pub installed: bool,
    /// `active`, `inactive`, `failed`, `activating`, ...
    pub active_state: String,
    /// `enabled`, `disabled`, `static`, ...
    pub file_state: String,
}

impl Default for UnitState {
    fn default() -> (r: Self)
        ensures
            !r.installed,
            r.active_state@ == Seq::<char>::empty(),
            r.file_state@ == Seq::<char>::empty(),
    {
        UnitState { installed: false, active_state: String::new(), file_state: String::new() }
    }
}

impl UnitState {
    pub open spec fn spec_is_active(&self) -> bool {
        self.active_state@ == "active"@
    }

    pub open spec fn spec_is_enabled(&self) -> bool {
        is_prefix("enabled"@, self.file_state@)
    }

    pub open spec fn spec_has_failed(&self) -> bool {
        self.active_state@ == "failed"@
    }

    pub fn is_active(&self) -> (r: bool)
        ensures
            r == self.spec_is_active(),
    {
        str_eq(self.active_state.as_str(), "active")
    }

    /// True for `enabled` and for suffixed forms such as `enabled-runtime`.
    pub fn is_enabled(&self) -> (r: bool)
        ensures
            r == self.spec_is_enabled(),
    {
        starts_with(self.file_state.as_str(), "enabled")
    }

    pub fn has_failed(&self) -> (r: bool)
        ensures
            r == self.spec_has_failed(),
    {
        str_eq(self.active_state.as_str(), "failed")
    }
}

/// Aggregate sync state of a single folder.
///
/// How far the folder is in sync is kept as the two byte counts Syncthing
/// reports, from which the percentage shown in the menu is derived exactly.
#[derive(Debug, Clone, PartialEq)]
pub struct FolderState {
    pub id: String,
    pub label: String,
    pub paused: bool,
    pub path: String,
    /// `idle`, `syncing`, `scanning`, `error`, ...
    pub state: String,
    /// Size of the folder's global state, in bytes.
    pub global_bytes: u64,
    /// Bytes still needed to be in sync.
    pub need_bytes: u64,
    pub errors: u64,
}

/// A folder's state as plain values.
pub struct FolderView {
    pub id: Seq<char>,
    pub label: Seq<char>,
    pub paused: bool,
    pub path: Seq<char>,
    pub state: Seq<char>,
    pub global_bytes: u64,
    pub need_bytes: u64,
    pub errors: u64,
}

impl View for FolderState {
    type V = FolderView;

    open spec fn view(&self) -> FolderView {
        FolderView {
            id: self.id@,
            label: self.label@,
            paused: self.paused,
            path: self.path@,
            state: self.state@,
            global_bytes: self.global_bytes,
            need_bytes: self.need_bytes,
            errors: self.errors,
        }
    }
}

/// The views of a list of folders.
pub open spec fn folder_views(s: Seq<FolderState>) -> Seq<FolderView> {
    s.map_values(|f: FolderState| f@)
}

/// The name a folder is shown by: its label, or its id when it has none.
pub open spec fn view_display_name(v: FolderView) -> Seq<char> {
    if v.label.len() == 0 {
        v.id
    } else {
        v.label
    }
}

pub open spec fn spec_display_name(f: FolderState) -> Seq<char> {
    view_display_name(f@)
}

pub open spec fn is_busy_state(state: Seq<char>) -> bool {
    state == "syncing"@ || state == "scanning"@
}

/// Short right-hand status of a folder in the menu.
pub open spec fn spec_summary(f: FolderState) -> Seq<char> {
    let pct = spec_completion_percent(f.global_bytes, f.need_bytes);
    if f.paused {
        "paused"@
    } else if f.errors > 0 {
        spec_decimal(f.errors as nat) + " error"@ + (if f.errors == 1 {
            Seq::<char>::empty()
        } else {
            seq!['s']
        })
    } else if is_busy_state(f.state@) {
        f.state@ + seq![' '] + spec_decimal(pct as nat) + seq!['%']
    } else if spec_up_to_date(f.global_bytes, f.need_bytes) {
        "up to date"@
    } else {
        spec_decimal(pct as nat) + seq!['%']
    }
}

impl FolderState {
    pub fn display_name(&self) -> (r: &str)
        ensures
            r@ == spec_display_name(*self),
    {
        if self.label.as_str().is_empty() {
            self.id.as_str()
        } else {
            self.label.as_str()
        }
    }

    /// Whole-percent completion, as shown in the menu.
    pub fn completion(&self) -> (r: u64)
        ensures
            r == spec_completion_percent(self.global_bytes, self.need_bytes),
    {
        completion_percent(self.global_bytes, self.need_bytes)
    }

    /// Short right-hand status used in the menu label.
    pub fn summary(&self) -> (r: String)
        ensures
            r@ == spec_summary(*self),
    {
        if self.paused {
            return owned("paused");
        }
        if self.errors > 0 {
            let mut out = String::new();
            push_decimal(&mut out, self.errors);
            out.append(" error");
            if self.errors != 1 {
                out.push('s');
            }
            assert(out@ =~= spec_summary(*self));
            return out;
        }
        let pct = self.completion();
        if str_eq(self.state.as_str(), "syncing") || str_eq(self.state.as_str(), "scanning") {
            let mut out = owned(self.state.as_str());
            out.push(' ');
            push_decimal(&mut out, pct);
            out.push('%');
            assert(out@ =~= spec_summary(*self));
            return out;
        }
        if up_to_date(self.global_bytes, self.need_bytes) {
            return owned("up to date");
        }
        let mut out = String::new();
        push_decimal(&mut out, pct);
        out.push('%');
        assert(out@ =~= spec_summary(*self));
        out
    }
}

/// Reachability of the REST API, kept separate from the unit state because a
/// running unit can still be unreachable while it starts up.
#[derive(Debug, Clone, PartialEq, Eq)]
pub enum ApiState {
    /// No config.xml, or no API key in it.
    NotConfigured(String),
    Unreachable(String),
    Connected,
}

#[derive(Debug, Clone)]
pub struct AppState {
    pub unit: UnitState,
    pub api: ApiState,
    pub folders: Vec<FolderState>,
    pub devices_connected: usize,
    pub devices_total: usize,
    pub version: Option<String>,
    /// Set when an action fails, shown in the menu until the next success.
    pub last_error: Option<String>,
    /// True while a start/stop/restart is in flight.
    pub busy: bool,
    /// Whether the tray itself starts with the desktop session.
    pub autostart: bool,
}

impl Default for AppState {
    fn default() -> (r: Self)
        ensures
            !r.unit.installed,
            r.unit.active_state@ == Seq::<char>::empty(),
            r.unit.file_state@ == Seq::<char>::empty(),
            r.api matches ApiState::Unreachable(why) && why@ == "starting up"@,
            r.folders@.len() == 0,
            r.devices_connected == 0,
            r.devices_total == 0,
            r.version is None,
            r.last_error is None,
            !r.busy,
            !r.autostart,
    {
        AppState {
            unit: UnitState::default(),
            api: ApiState::Unreachable(owned("starting up")),
            folders: Vec::new(),
            devices_connected: 0,
            devices_total: 0,
            version: None,
            last_error: None,
            busy: false,
            autostart: false,
        }
    }
}

/// Overall health, which drives the tray icon.
#[derive(Debug, Clone, Copy, PartialEq, Eq, Structural)]
pub enum Health {
    Stopped,
    Starting,
    Error,
    Syncing,
    Paused,
    UpToDate,
}

/// Breeze icon name for each health.
pub open spec fn spec_health_icon(h: Health) -> Seq<char> {
    match h {
        Health::Stopped => "state-offline"@,
        Health::Starting => "state-sync"@,
        Health::Error => "state-error"@,
        Health::Syncing => "state-sync"@,
        Health::Paused => "state-pause"@,
        Health::UpToDate => "state-ok"@,
    }
}

impl Health {
    /// Every state, so the icons can be pre-rendered.
    pub const ALL: [Health; 6] = [
        Health::Stopped,
        Health::Starting,
        Health::Error,
        Health::Syncing,
        Health::Paused,
        Health::UpToDate,
    ];

    /// Breeze fallback, used for menu entries and if pixmap rendering fails.
    pub fn icon_name(self) -> (r: &'static str)
        ensures
            r@ == spec_health_icon(self),
    {
        match self {
            Health::Stopped => "state-offline",
            Health::Starting => "state-sync",
            Health::Error => "state-error",
            Health::Syncing => "state-sync",
            Health::Paused => "state-pause",
            Health::UpToDate => "state-ok",
        }
    }
}

pub open spec fn folder_has_error(f: FolderState) -> bool {
    f.errors > 0 || f.state@ == "error"@
}

pub open spec fn folder_is_syncing(f: FolderState) -> bool {
    !f.paused && is_busy_state(f.state@)
}

pub open spec fn any_error(folders: Seq<FolderState>) -> bool {
    exists|i: int| 0 <= i < folders.len() && folder_has_error(#[trigger] folders[i])
}

pub open spec fn any_syncing(folders: Seq<FolderState>) -> bool {
    exists|i: int| 0 <= i < folders.len() && folder_is_syncing(#[trigger] folders[i])
}

/// True when there is at least one folder and every folder is paused.
pub open spec fn spec_all_paused(folders: Seq<FolderState>) -> bool {
    folders.len() > 0 && forall|i: int| 0 <= i < folders.len() ==> (#[trigger] folders[i]).paused
}

/// Unit installed and running.
pub open spec fn unit_running(s: AppState) -> bool {
    s.unit.installed && s.unit.spec_is_active()
}

/// Overall health: a failed unit first, then whether it runs at all, then the
/// API, then folder errors, activity and pauses, in that order.
pub open spec fn spec_health(s: AppState) -> Health {
    if s.unit.spec_has_failed() {
        Health::Error
    } else if !unit_running(s) {
        Health::Stopped
    } else {
        match s.api {
            ApiState::Unreachable(_) => Health::Starting,
            ApiState::NotConfigured(_) => Health::Error,
            ApiState::Connected => {
                if any_error(s.folders@) {
                    Health::Error
                } else if any_syncing(s.folders@) {
                    Health::Syncing
                } else if spec_all_paused(s.folders@) {
                    Health::Paused
                } else {
                    Health::UpToDate
                }
            },
        }
    }
}

/// One-line status shown at the top of the menu and in the tooltip.
pub open spec fn spec_headline(s: AppState) -> Seq<char> {
    if !s.unit.installed {
        "Syncthing: not installed as a user service"@
    } else if s.unit.spec_has_failed() {
        "Syncthing: service failed"@
    } else if !s.unit.spec_is_active() {
        "Syncthing: stopped"@
    } else {
        match s.api {
            ApiState::NotConfigured(why) => "Syncthing: "@ + why@,
            ApiState::Unreachable(_) => "Syncthing: starting\u{2026}"@,
            ApiState::Connected => "Syncthing: running ("@ + spec_decimal(
                s.devices_connected as nat,
            ) + seq!['/'] + spec_decimal(s.devices_total as nat) + " device"@ + (if s.devices_total
                == 1 {
                Seq::<char>::empty()
            } else {
                seq!['s']
            }) + " connected)"@,
        }
    }
}

pub fn folders_any_error(folders: &Vec<FolderState>) -> (r: bool)
    ensures
        r == any_error(folders@),
{
    let n = folders.len();
    let mut i: usize = 0;
    while i < n
        invariant
            n == folders@.len(),
            i <= n,
            forall|k: int| 0 <= k < i ==> !folder_has_error(#[trigger] folders@[k]),
        decreases n - i,
    {
        let f = &folders[i];
        if f.errors > 0 || str_eq(f.state.as_str(), "error") {
            assert(folder_has_error(folders@[i as int]));
            return true;
        }
        i += 1;
    }
    false
}

pub fn folders_any_syncing(folders: &Vec<FolderState>) -> (r: bool)
    ensures
        r == any_syncing(folders@),
{
    let n = folders.len();
    let mut i: usize = 0;
    while i < n
        invariant
            n == folders@.len(),
            i <= n,
            forall|k: int| 0 <= k < i ==> !folder_is_syncing(#[trigger] folders@[k]),
        decreases n - i,
    {
        let f = &folders[i];
        if !f.paused && (str_eq(f.state.as_str(), "syncing") || str_eq(f.state.as_str(), "scanning")) {
            assert(folder_is_syncing(folders@[i as int]));
            return true;
        }
        i += 1;
    }
    false
}

pub fn folders_all_paused(folders: &Vec<FolderState>) -> (r: bool)
    ensures
        r == spec_all_paused(folders@),
{
    let n = folders.len();
    if n == 0 {
        return false;
    }
    let mut i: usize = 0;
    while i < n
        invariant
            n == folders@.len(),
            i <= n,
            forall|k: int| 0 <= k < i ==> (#[trigger] folders@[k]).paused,
        decreases n - i,
    {
        if !folders[i].paused {
            return false;
        }
        i += 1;
    }
    true
}

impl AppState {
    pub fn health(&self) -> (r: Health)
        ensures
            r == spec_health(*self),
    {
        if self.unit.has_failed() {
            return Health::Error;
        }
        if !self.unit.installed || !self.unit.is_active() {
            return Health::Stopped;
        }
        match &self.api {
            // The unit is up but the API is not answering yet, which is normal
            // for the first second or two after a start.
            ApiState::Unreachable(_) => return Health::Starting,
            ApiState::NotConfigured(_) => return Health::Error,
            ApiState::Connected => {},
        }
        if folders_any_error(&self.folders) {
            return Health::Error;
        }
        if folders_any_syncing(&self.folders) {
            return Health::Syncing;
        }
        if folders_all_paused(&self.folders) {
            return Health::Paused;
        }
        Health::UpToDate
    }

    pub fn headline(&self) -> (r: String)
        ensures
            r@ == spec_headline(*self),
    {
        if !self.unit.installed {
            return owned("Syncthing: not installed as a user service");
        }
        if self.unit.has_failed() {
            return owned("Syncthing: service failed");
        }
        if !self.unit.is_active() {
            return owned("Syncthing: stopped");
        }
        match &self.api {
            ApiState::NotConfigured(why) => {
                let mut out = owned("Syncthing: ");
                out.append(why.as_str());
                out
            },
            ApiState::Unreachable(_) => owned("Syncthing: starting\u{2026}"),
            ApiState::Connected => {
                let mut out = owned("Syncthing: running (");
                push_decimal(&mut out, self.devices_connected as u64);
                out.push('/');
                push_decimal(&mut out, self.devices_total as u64);
                out.append(" device");
                if self.devices_total != 1 {
                    out.push('s');
                }
                out.append(" connected)");
                assert(out@ =~= spec_headline(*self));
                out
            },
        }
    }

    /// True when every folder is paused, so the menu can offer "Resume All".
    pub fn all_paused(&self) -> (r: bool)
        ensures
            r == spec_all_paused(self.folders@),
    {
        folders_all_paused(&self.folders)
    }
}

/// A failed unit reads as an error whatever else is true.
pub proof fn law_failed_unit_outranks_everything(s: AppState)
    requires
        s.unit.spec_has_failed(),
    ensures
        spec_health(s) == Health::Error,
{
}

/// A unit that is not failed reads as stopped exactly when it is missing or
/// not active.
pub proof fn law_stopped_means_not_running(s: AppState)
    requires
        !s.unit.spec_has_failed(),
    ensures
        spec_health(s) == Health::Stopped <==> !unit_running(s),
{
}

/// A running unit whose API does not answer yet reads as starting.
pub proof fn law_unanswered_api_is_starting(s: AppState)
    requires
        !s.unit.spec_has_failed(),
        unit_running(s),
    ensures
        spec_health(s) == Health::Starting <==> s.api is Unreachable,
{
}

/// With the API connected, a folder error outranks any folder activity.
pub proof fn law_folder_errors_outrank_syncing(s: AppState, i: int)
    requires
        !s.unit.spec_has_failed(),
        unit_running(s),
        s.api is Connected,
        0 <= i < s.folders@.len(),
        folder_has_error(s.folders@[i]),
    ensures
        spec_health(s) == Health::Error,
{
}

/// A paused folder never counts as syncing, whatever state it reports.
pub proof fn law_paused_folders_are_not_syncing(s: AppState)
    requires
        forall|i: int| 0 <= i < s.folders@.len() ==> (#[trigger] s.folders@[i]).paused,
    ensures
        spec_health(s) != Health::Syncing,
{
}

/// The paused health is shown only when every folder is paused, which is
/// also when the menu offers "Resume All".
pub proof fn law_paused_health_means_all_paused(s: AppState)
    ensures
        spec_health(s) == Health::Paused ==> spec_all_paused(s.folders@),
{
}

/// A running, connected, error-free and idle tray is paused exactly when
/// every folder is paused.
pub proof fn law_all_paused_is_paused_health(s: AppState)
    requires
        !s.unit.spec_has_failed(),
        unit_running(s),
        s.api is Connected,
        !any_error(s.folders@),
    ensures
        spec_all_paused(s.folders@) ==> spec_health(s) == Health::Paused,
{
    if spec_all_paused(s.folders@) {
        assert(!any_syncing(s.folders@));
    }
}

/// The headline reports a running Syncthing only when the health is neither
/// stopped nor starting.
pub proof fn law_headline_running_only_when_connected(s: AppState)
    requires
        unit_running(s),
        !s.unit.spec_has_failed(),
        s.api is Connected,
    ensures
        is_prefix("Syncthing: running ("@, spec_headline(s)),
        spec_health(s) != Health::Stopped,
        spec_health(s) != Health::Starting,
{
    let h = spec_headline(s);
    let p = "Syncthing: running ("@;
    assert(h.subrange(0, p.len() as int) =~= p);
}

/// Actions requested from the menu. Menu callbacks are synchronous, so they
/// post one of these to the worker task rather than doing the work inline.
#[derive(Debug, Clone, PartialEq, Eq)]
pub enum Command {
    Start,
    Stop,
    Restart,
    SetEnabled(bool),
    /// Autostart for the tray itself, distinct from [`Command::SetEnabled`],
    /// which governs the Syncthing service.
    SetAutostart(bool),
    InstallUnit,
    RescanAll,
    SetAllPaused(bool),
    OpenWebUi,
    OpenFolder(String),
    Refresh,
    Quit,
}

/// Human-readable name of each action.
pub open spec fn spec_label(c: Command) -> Seq<char> {
    match c {
        Command::Start => "Start Syncthing"@,
        Command::Stop => "Stop Syncthing"@,
        Command::Restart => "Restart Syncthing"@,
        Command::SetEnabled(true) => "Enable Start Syncthing at Login"@,
        Command::SetEnabled(false) => "Disable Start Syncthing at Login"@,
        Command::SetAutostart(true) => "Enable Start Tray at Login"@,
        Command::SetAutostart(false) => "Disable Start Tray at Login"@,
        Command::InstallUnit => "Install User Service"@,
        Command::RescanAll => "Rescan All"@,
        Command::SetAllPaused(true) => "Pause All"@,
        Command::SetAllPaused(false) => "Resume All"@,
        Command::OpenWebUi => "Open Web UI"@,
        Command::OpenFolder(path) => "Open "@ + path@,
        Command::Refresh => "Refresh"@,
        Command::Quit => "Quit"@,
    }
}

impl Command {
    /// Human-readable name for the action, used to title an error dialog.
    pub fn label(&self) -> (r: String)
        ensures
            r@ == spec_label(*self),
    {
        match self {
            Command::Start => owned("Start Syncthing"),
            Command::Stop => owned("Stop Syncthing"),
            Command::Restart => owned("Restart Syncthing"),
            Command::SetEnabled(true) => owned("Enable Start Syncthing at Login"),
            Command::SetEnabled(false) => owned("Disable Start Syncthing at Login"),
            Command::SetAutostart(true) => owned("Enable Start Tray at Login"),
            Command::SetAutostart(false) => owned("Disable Start Tray at Login"),
            Command::InstallUnit => owned("Install User Service"),
            Command::RescanAll => owned("Rescan All"),
            Command::SetAllPaused(true) => owned("Pause All"),
            Command::SetAllPaused(false) => owned("Resume All"),
            Command::OpenWebUi => owned("Open Web UI"),
            Command::OpenFolder(path) => {
                let mut out = owned("Open ");
                out.append(path.as_str());
                out
            },
            Command::Refresh => owned("Refresh"),
            Command::Quit => owned("Quit"),
        }
    }
}


/// A running, connected tray whose folders report no error reads as syncing
/// as soon as one unpaused folder reports the state `syncing` or `scanning`.
pub proof fn law_busy_folder_means_syncing(s: AppState, i: int)
    requires
        s.unit.installed,
        s.unit.active_state@ == "active"@,
        s.api is Connected,
        forall|j: int| 0 <= j < s.folders@.len() ==> (#[trigger] s.folders@[j]).errors == 0 && s.folders@[j].state@
            != "error"@,
        0 <= i < s.folders@.len(),
        !s.folders@[i].paused,
        s.folders@[i].state@ == "syncing"@ || s.folders@[i].state@ == "scanning"@,
    ensures
        spec_health(s) == Health::Syncing,
{
    reveal_strlit("active");
    reveal_strlit("failed");
    reveal_strlit("syncing");
    reveal_strlit("scanning");
    assert("active"@[0] != "failed"@[0]);
    assert(!s.unit.spec_has_failed());
    assert(unit_running(s));
    assert(is_busy_state(s.folders@[i].state@));
    assert(folder_is_syncing(s.folders@[i]));
    assert(any_syncing(s.folders@));
    assert(!any_error(s.folders@)) by {
        assert forall|j: int| 0 <= j < s.folders@.len() implies !folder_has_error(#[trigger] s.folders@[j]) by {
            let _ = s.folders@[j];
        }
    }
}
} // verus!
