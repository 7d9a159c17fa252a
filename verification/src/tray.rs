//! What the StatusNotifierItem presents to Plasma: the menu, the tooltip and
//! the icon, as plain values. The caller hands them to the desktop.

use vstd::prelude::*;
use vstd::string::*;
use crate::icons::{self, Style, spec_icon_name};
use crate::model::{ApiState, AppState, Command, FolderState, Health, is_busy_state, spec_all_paused,
    spec_display_name, spec_headline, spec_health_icon, spec_summary};
use crate::text::{owned, str_eq};
use crate::worker::spec_is_service_op;

verus! {

/// One entry of the tray menu.
#[derive(Debug, Clone)]
pub enum MenuEntry {
    /// Non-interactive text row.
    Label(String),
    /// A row that posts `command` when clicked.
    Action { label: String, icon: String, enabled: bool, command: Command },
    /// A check box that posts `command` when clicked.
    Checkmark { label: String, checked: bool, enabled: bool, command: Command },
    Separator,
}

pub enum MenuEntryView {
    Label(Seq<char>),
    Action { label: Seq<char>, icon: Seq<char>, enabled: bool, command: Command },
    Checkmark { label: Seq<char>, checked: bool, enabled: bool, command: Command },
    Separator,
}

impl View for MenuEntry {
    type V = MenuEntryView;

    open spec fn view(&self) -> MenuEntryView {
        match self {
            MenuEntry::Label(t) => MenuEntryView::Label(t@),
            MenuEntry::Action { label, icon, enabled, command } => MenuEntryView::Action {
                label: label@,
                icon: icon@,
                enabled: *enabled,
                command: *command,
            },
            MenuEntry::Checkmark { label, checked, enabled, command } => MenuEntryView::Checkmark {
                label: label@,
                checked: *checked,
                enabled: *enabled,
                command: *command,
            },
            MenuEntry::Separator => MenuEntryView::Separator,
        }
    }
}

pub open spec fn entry_views(v: Seq<MenuEntry>) -> Seq<MenuEntryView> {
    v.map_values(|e: MenuEntry| e@)
}

pub open spec fn action(label: Seq<char>, icon: Seq<char>, enabled: bool, command: Command) -> MenuEntryView {
    MenuEntryView::Action { label, icon, enabled, command }
}

/// The Breeze icon beside a folder row.
pub open spec fn spec_folder_icon(f: FolderState) -> Seq<char> {
    if f.errors > 0 {
        "state-error"@
    } else if f.paused {
        "state-pause"@
    } else if is_busy_state(f.state@) {
        "state-sync"@
    } else {
        "state-ok"@
    }
}

/// A folder's row: its name and status; clicking opens the folder, which is
/// possible only when its path is known.
pub open spec fn spec_folder_entry(f: FolderState) -> MenuEntryView {
    action(
        spec_display_name(f) + "  \u{2014}  "@ + spec_summary(f),
        spec_folder_icon(f),
        f.path@.len() > 0,
        Command::OpenFolder(f.path),
    )
}

/// The folder rows: none unless the API is connected, a note when there are
/// no folders, otherwise one row per folder in order.
pub open spec fn spec_folder_items(s: AppState) -> Seq<MenuEntryView> {
    if !(s.api is Connected) {
        Seq::empty()
    } else if s.folders@.len() == 0 {
        seq![MenuEntryView::Label("No folders configured"@)]
    } else {
        Seq::new(s.folders@.len(), |i: int| spec_folder_entry(s.folders@[i]))
    }
}

/// The service controls: an install offer when the unit is missing;
/// otherwise start, stop and restart, with start offered only while stopped
/// and stop only while running, and the start-at-login toggle. Nothing is
/// clickable while a service operation is in flight.
pub open spec fn spec_service_items(s: AppState) -> Seq<MenuEntryView> {
    let busy = s.busy;
    if !s.unit.installed {
        seq![
            MenuEntryView::Label("syncthing.service is not installed"@),
            action("Install User Service\u{2026}"@, "document-save"@, !busy, Command::InstallUnit),
        ]
    } else {
        let active = s.unit.spec_is_active();
        let enabled_now = s.unit.spec_is_enabled();
        seq![
            action("Start Syncthing"@, "media-playback-start"@, !busy && !active, Command::Start),
            action("Stop Syncthing"@, "media-playback-stop"@, !busy && active, Command::Stop),
            action("Restart Syncthing"@, "view-refresh"@, !busy, Command::Restart),
            MenuEntryView::Checkmark {
                label: "Start Syncthing at Login"@,
                checked: enabled_now,
                enabled: !busy,
                command: Command::SetEnabled(!enabled_now),
            },
        ]
    }
}

/// The note shown under the headline when Syncthing is not configured.
pub open spec fn spec_not_configured_note(s: AppState) -> Seq<MenuEntryView> {
    match s.api {
        ApiState::NotConfigured(why) => seq![MenuEntryView::Label("  "@ + why@)],
        _ => Seq::empty(),
    }
}

/// The last error, shown under the headline until the next success.
pub open spec fn spec_error_note(s: AppState) -> Seq<MenuEntryView> {
    match s.last_error {
        Some(e) => seq![MenuEntryView::Label("  "@ + e@)],
        None => Seq::empty(),
    }
}

/// The top of the menu: the headline, any notes under it, a separator, the
/// folder rows, and a separator after them when connected.
pub open spec fn menu_head(s: AppState) -> Seq<MenuEntryView> {
    seq![MenuEntryView::Label(spec_headline(s))] + spec_not_configured_note(s) + spec_error_note(s)
        + seq![MenuEntryView::Separator] + spec_folder_items(s) + (if s.api is Connected {
        seq![MenuEntryView::Separator]
    } else {
        Seq::empty()
    })
}

/// The actions on Syncthing itself, followed by a separator. Rescan and the
/// pause toggle need the API; the toggle resumes when every folder is paused
/// and pauses otherwise.
pub open spec fn menu_actions(s: AppState) -> Seq<MenuEntryView> {
    let connected = s.api is Connected;
    let all_paused = spec_all_paused(s.folders@);
    seq![
        action("Open Web UI"@, "internet-web-browser"@, true, Command::OpenWebUi),
        action("Rescan All"@, "view-refresh"@, connected, Command::RescanAll),
        action(
            if all_paused {
                "Resume All"@
            } else {
                "Pause All"@
            },
            if all_paused {
                "media-playback-start"@
            } else {
                "media-playback-pause"@
            },
            connected,
            Command::SetAllPaused(!all_paused),
        ),
        MenuEntryView::Separator,
    ]
}

/// The bottom of the menu: a separator, the tray's own start-at-login
/// toggle, and Quit.
pub open spec fn menu_tail(s: AppState) -> Seq<MenuEntryView> {
    seq![
        MenuEntryView::Separator,
        MenuEntryView::Checkmark {
            label: "Start Tray at Login"@,
            checked: s.autostart,
            enabled: !s.busy,
            command: Command::SetAutostart(!s.autostart),
        },
        action("Quit"@, "application-exit"@, true, Command::Quit),
    ]
}

/// The whole menu.
pub open spec fn spec_menu(s: AppState) -> Seq<MenuEntryView> {
    menu_head(s) + menu_actions(s) + spec_service_items(s) + menu_tail(s)
}

fn action_entry(label: &str, icon: &str, enabled: bool, command: Command) -> (r: MenuEntry)
    ensures
        r@ == action(label@, icon@, enabled, command),
{
    MenuEntry::Action { label: owned(label), icon: owned(icon), enabled, command }
}

fn label_entry(text: String) -> (r: MenuEntry)
    ensures
        r@ == MenuEntryView::Label(text@),
{
    MenuEntry::Label(text)
}

fn folder_icon(folder: &FolderState) -> (r: &'static str)
    ensures
        r@ == spec_folder_icon(*folder),
{
    if folder.errors > 0 {
        "state-error"
    } else if folder.paused {
        "state-pause"
    } else if str_eq(folder.state.as_str(), "syncing") || str_eq(folder.state.as_str(), "scanning") {
        "state-sync"
    } else {
        "state-ok"
    }
}

fn folder_entry(folder: &FolderState) -> (r: MenuEntry)
    ensures
        r@ == spec_folder_entry(*folder),
{
    let mut label = owned(folder.display_name());
    label.append("  \u{2014}  ");
    let summary = folder.summary();
    label.append(summary.as_str());
    MenuEntry::Action {
        label,
        icon: owned(folder_icon(folder)),
        enabled: !folder.path.as_str().is_empty(),
        command: Command::OpenFolder(folder.path.clone()),
    }
}

/// One row per folder, showing its state. Clicking opens the folder.
///
/// Flat rather than a submenu per folder: submenus are populated lazily by
/// the host and do not arrive filled in.
pub fn folder_items(state: &AppState) -> (r: Vec<MenuEntry>)
    ensures
        entry_views(r@) == spec_folder_items(*state),
{
    match &state.api {
        ApiState::Connected => {},
        _ => {
            let r: Vec<MenuEntry> = Vec::new();
            assert(entry_views(r@) =~= spec_folder_items(*state));
            return r;
        },
    }
    let n = state.folders.len();
    if n == 0 {
        let mut r: Vec<MenuEntry> = Vec::new();
        r.push(label_entry(owned("No folders configured")));
        assert(entry_views(r@) =~= spec_folder_items(*state));
        return r;
    }
    let mut r: Vec<MenuEntry> = Vec::new();
    let mut i: usize = 0;
    while i < n
        invariant
            n == state.folders@.len(),
            i <= n,
            r@.len() == i,
            forall|k: int| 0 <= k < i ==> (#[trigger] r@[k])@ == spec_folder_entry(state.folders@[k]),
        decreases n - i,
    {
        r.push(folder_entry(&state.folders[i]));
        i += 1;
    }
    assert(entry_views(r@) =~= spec_folder_items(*state));
    r
}

/// Service controls, appended inline for the same reason as the folders.
pub fn service_items(state: &AppState) -> (r: Vec<MenuEntry>)
    ensures
        entry_views(r@) == spec_service_items(*state),
{
    let unit = &state.unit;
    let busy = state.busy;
    let mut r: Vec<MenuEntry> = Vec::new();
    if !unit.installed {
        r.push(label_entry(owned("syncthing.service is not installed")));
        r.push(action_entry("Install User Service\u{2026}", "document-save", !busy, Command::InstallUnit));
        assert(entry_views(r@) =~= spec_service_items(*state));
        return r;
    }
    let active = unit.is_active();
    let enabled_now = unit.is_enabled();
    r.push(action_entry("Start Syncthing", "media-playback-start", !busy && !active, Command::Start));
    r.push(action_entry("Stop Syncthing", "media-playback-stop", !busy && active, Command::Stop));
    r.push(action_entry("Restart Syncthing", "view-refresh", !busy, Command::Restart));
    r.push(
        MenuEntry::Checkmark {
            label: owned("Start Syncthing at Login"),
            checked: enabled_now,
            enabled: !busy,
            command: Command::SetEnabled(!enabled_now),
        },
    );
    assert(entry_views(r@) =~= spec_service_items(*state));
    r
}

fn append_entries(items: &mut Vec<MenuEntry>, more: Vec<MenuEntry>)
    ensures
        entry_views(final(items)@) == entry_views(old(items)@) + entry_views(more@),
{
    let ghost extra = more@;
    let mut more = more;
    let ghost before = items@;
    items.append(&mut more);
    assert(entry_views(items@) =~= entry_views(before) + entry_views(extra)) by {
        assert(items@ =~= before + extra);
    }
}

/// The tray menu.
pub fn menu(state: &AppState) -> (r: Vec<MenuEntry>)
    ensures
        entry_views(r@) == spec_menu(*state),
{
    let connected = match &state.api {
        ApiState::Connected => true,
        _ => false,
    };
    let mut items: Vec<MenuEntry> = Vec::new();
    items.push(label_entry(state.headline()));
    let ghost p0 = entry_views(items@);
    assert(p0 =~= seq![MenuEntryView::Label(spec_headline(*state))]);
    if let ApiState::NotConfigured(why) = &state.api {
        let mut t = owned("  ");
        t.append(why.as_str());
        items.push(label_entry(t));
    }
    let ghost p1 = entry_views(items@);
    assert(p1 =~= p0 + spec_not_configured_note(*state));
    if let Some(error) = &state.last_error {
        let mut t = owned("  ");
        t.append(error.as_str());
        items.push(label_entry(t));
    }
    let ghost p2 = entry_views(items@);
    assert(p2 =~= p1 + spec_error_note(*state));
    items.push(MenuEntry::Separator);
    let ghost q1 = entry_views(items@);
    assert(q1 =~= p2 + seq![MenuEntryView::Separator]);
    append_entries(&mut items, folder_items(state));
    let ghost q2 = entry_views(items@);
    assert(q2 == q1 + spec_folder_items(*state));
    if connected {
        items.push(MenuEntry::Separator);
    }
    let ghost p3 = entry_views(items@);
    assert(p3 =~= q2 + (if connected {
        seq![MenuEntryView::Separator]
    } else {
        Seq::empty()
    }));
    items.push(action_entry("Open Web UI", "internet-web-browser", true, Command::OpenWebUi));
    items.push(action_entry("Rescan All", "view-refresh", connected, Command::RescanAll));
    let all_paused = state.all_paused();
    items.push(
        action_entry(
            if all_paused {
                "Resume All"
            } else {
                "Pause All"
            },
            if all_paused {
                "media-playback-start"
            } else {
                "media-playback-pause"
            },
            connected,
            Command::SetAllPaused(!all_paused),
        ),
    );
    items.push(MenuEntry::Separator);
    let ghost p4 = entry_views(items@);
    assert(p4 =~= p3 + seq![
        action("Open Web UI"@, "internet-web-browser"@, true, Command::OpenWebUi),
        action("Rescan All"@, "view-refresh"@, connected, Command::RescanAll),
        action(
            if all_paused { "Resume All"@ } else { "Pause All"@ },
            if all_paused { "media-playback-start"@ } else { "media-playback-pause"@ },
            connected,
            Command::SetAllPaused(!all_paused),
        ),
        MenuEntryView::Separator,
    ]);
    append_entries(&mut items, service_items(state));
    let ghost p5 = entry_views(items@);
    assert(p5 == p4 + spec_service_items(*state));
    items.push(MenuEntry::Separator);
    items.push(
        MenuEntry::Checkmark {
            label: owned("Start Tray at Login"),
            checked: state.autostart,
            enabled: !state.busy,
            command: Command::SetAutostart(!state.autostart),
        },
    );
    items.push(action_entry("Quit", "application-exit", true, Command::Quit));
    assert(entry_views(items@) =~= p5 + seq![
        MenuEntryView::Separator,
        MenuEntryView::Checkmark {
            label: "Start Tray at Login"@,
            checked: state.autostart,
            enabled: !state.busy,
            command: Command::SetAutostart(!state.autostart),
        },
        action("Quit"@, "application-exit"@, true, Command::Quit),
    ]);
    assert(entry_views(items@) =~= spec_menu(*state));
    items
}

/// Exactly one of "Start Syncthing" and "Stop Syncthing" can be clicked
/// whenever the unit is installed and nothing is in flight.
pub proof fn law_start_or_stop_offered(s: AppState)
    requires
        s.unit.installed,
        !s.busy,
    ensures
        spec_service_items(s)[0] matches MenuEntryView::Action { enabled: start, .. }
            && spec_service_items(s)[1] matches MenuEntryView::Action { enabled: stop, .. }
            && start != stop,
{
}

/// A folder with errors is shown with the error icon, whatever else it
/// reports: its row, and only its row, in the menu.
pub proof fn law_folders_with_errors_show_the_error_icon(s: AppState, i: int)
    requires
        s.api is Connected,
        0 <= i < s.folders@.len(),
        s.folders@[i].errors > 0,
    ensures
        spec_folder_items(s)[i] matches MenuEntryView::Action { icon, command, .. } && icon == "state-error"@
            && command == Command::OpenFolder(s.folders@[i].path),
        spec_menu(s)[menu_head(s).len() - 1 - s.folders@.len() + i] == spec_folder_items(s)[i],
{
    let pre = seq![MenuEntryView::Label(spec_headline(s))] + spec_not_configured_note(s)
        + spec_error_note(s) + seq![MenuEntryView::Separator];
    let f = spec_folder_items(s);
    assert(menu_head(s) =~= pre + f + seq![MenuEntryView::Separator]);
    let k = menu_head(s).len() - 1 - s.folders@.len() + i;
    assert(k == pre.len() + i);
    assert(spec_menu(s) =~= menu_head(s) + menu_actions(s) + spec_service_items(s) + menu_tail(s));
    assert(spec_menu(s)[k] == menu_head(s)[k]);
    assert(menu_head(s)[k] == f[i]);
}

/// Where the `i`th entry of the menu comes from.
proof fn lemma_menu_index(s: AppState, i: int)
    requires
        0 <= i < spec_menu(s).len(),
    ensures
        ({
            let m = spec_menu(s);
            let h = menu_head(s).len() as int;
            let v = spec_service_items(s).len() as int;
            &&& i < h ==> m[i] == menu_head(s)[i]
            &&& h <= i < h + 4 ==> m[i] == menu_actions(s)[i - h]
            &&& h + 4 <= i < h + 4 + v ==> m[i] == spec_service_items(s)[i - h - 4]
            &&& h + 4 + v <= i ==> m[i] == menu_tail(s)[i - h - 4 - v]
        }),
{
}

/// The top of the menu holds only labels, separators and the folder rows,
/// which open folders.
proof fn lemma_menu_head(s: AppState, i: int)
    requires
        0 <= i < menu_head(s).len(),
    ensures
        match menu_head(s)[i] {
            MenuEntryView::Action { command, .. } => command is OpenFolder,
            MenuEntryView::Checkmark { .. } => false,
            _ => true,
        },
{
    let pre = seq![MenuEntryView::Label(spec_headline(s))] + spec_not_configured_note(s)
        + spec_error_note(s) + seq![MenuEntryView::Separator];
    let f = spec_folder_items(s);
    let post: Seq<MenuEntryView> = if s.api is Connected {
        seq![MenuEntryView::Separator]
    } else {
        Seq::empty()
    };
    assert(menu_head(s) =~= pre + f + post);
    if i < pre.len() {
        assert(menu_head(s)[i] == pre[i]);
    } else if i < pre.len() + f.len() {
        assert(menu_head(s)[i] == f[i - pre.len()]);
    } else {
        assert(menu_head(s)[i] == post[i - pre.len() - f.len()]);
    }
}

/// The install offer appears only when no unit is installed.
pub proof fn law_install_only_when_missing(s: AppState, i: int)
    requires
        0 <= i < spec_menu(s).len(),
        spec_menu(s)[i] matches MenuEntryView::Action { command: Command::InstallUnit, .. },
    ensures
        !s.unit.installed,
{
    lemma_menu_index(s, i);
    if i < menu_head(s).len() {
        lemma_menu_head(s, i);
    }
}

/// The pause toggle offers the opposite of the folders' current state: it
/// resumes when every folder is paused and pauses otherwise.
pub proof fn law_pause_toggle_flips(s: AppState)
    ensures
        spec_menu(s)[menu_head(s).len() + 2int] matches MenuEntryView::Action {
            command: Command::SetAllPaused(p),
            ..
        } && p == !spec_all_paused(s.folders@),
{
    lemma_menu_index(s, menu_head(s).len() + 2int);
}

/// Each check box offers the opposite of what it shows: clicking a ticked
/// box turns its setting off, and clicking an unticked one turns it on.
pub proof fn law_checkmarks_toggle(s: AppState, i: int)
    requires
        0 <= i < spec_menu(s).len(),
        spec_menu(s)[i] is Checkmark,
    ensures
        spec_menu(s)[i] matches MenuEntryView::Checkmark { checked, command, .. } && (command
            == Command::SetEnabled(!checked) || command == Command::SetAutostart(!checked)),
{
    lemma_menu_index(s, i);
    if i < menu_head(s).len() {
        lemma_menu_head(s, i);
    }
}

/// While a service operation is in flight (the state `begin_command` marks
/// busy), nothing that would start another can be clicked: the start, stop,
/// restart and install actions and both start-at-login toggles are disabled.
pub proof fn law_busy_disables_service_controls(s: AppState, i: int)
    requires
        s.busy,
        0 <= i < spec_menu(s).len(),
    ensures
        match spec_menu(s)[i] {
            MenuEntryView::Action { command, enabled, .. } => spec_is_service_op(command) ==> !enabled,
            MenuEntryView::Checkmark { enabled, .. } => !enabled,
            _ => true,
        },
{
    lemma_menu_index(s, i);
    if i < menu_head(s).len() {
        lemma_menu_head(s, i);
    }
}

/// The tooltip's description: the headline, the Syncthing version when
/// known, and the last error when there is one, each on its own line.
pub open spec fn spec_tooltip(s: AppState) -> Seq<char> {
    spec_headline(s) + (match s.version {
        Some(v) => "\nSyncthing "@ + v@,
        None => Seq::empty(),
    }) + (match s.last_error {
        Some(e) => seq!['\n'] + e@,
        None => Seq::empty(),
    })
}

/// The tooltip's description.
pub fn tooltip_description(state: &AppState) -> (r: String)
    ensures
        r@ == spec_tooltip(*state),
{
    let mut description = state.headline();
    if let Some(version) = &state.version {
        description.append("\nSyncthing ");
        description.append(version.as_str());
    }
    if let Some(error) = &state.last_error {
        description.push('\n');
        description.append(error.as_str());
    }
    assert(description@ =~= spec_tooltip(*state));
    description
}

/// The icon name the tray advertises: the themed name in the monochrome
/// style; empty in the colour style when pixmaps are available, so the host
/// uses them; otherwise a Breeze name, so the slot is never blank.
pub open spec fn spec_tray_icon_name(health: Health, style: Style, available: bool) -> Seq<char> {
    match style {
        Style::Monochrome => spec_icon_name(health),
        Style::Colour => if available {
            Seq::empty()
        } else {
            spec_health_icon(health)
        },
    }
}

/// The icon name the tray advertises, given whether colour pixmaps exist for
/// `health`.
pub fn tray_icon_name(health: Health, style: Style, available: bool) -> (r: String)
    ensures
        r@ == spec_tray_icon_name(health, style, available),
{
    match style {
        Style::Monochrome => icons::icon_name(health),
        Style::Colour => if available {
            String::new()
        } else {
            owned(health.icon_name())
        },
    }
}

} // verus!
