//! The decisions of the background worker: when to refresh, what a menu
//! command does, and how the state changes when an action or a refresh
//! completes. The worker performs the I/O each decision calls for.

use vstd::prelude::*;
use vstd::string::*;
use crate::client::{Event, Snapshot, any_interesting, spec_is_interesting, spec_next_cursor, next_cursor};
use crate::model::{ApiState, AppState, Command, FolderState, UnitState};
use crate::text::owned;

verus! {

/// How often the worker wakes to consider refreshing, in milliseconds.
pub const TICK_MS: u64 = 1000;

/// Upper bound between full refreshes, even with no events at all, in
/// milliseconds.
pub const MAX_REFRESH_INTERVAL_MS: u64 = 10000;

/// Fallback web UI address when Syncthing has never been configured.
pub const DEFAULT_WEB_UI: &'static str = "http://127.0.0.1:8384";

/// Seconds to back off after a failed poll of the event stream.
pub const EVENT_RETRY_SECS: u64 = 5;

pub open spec fn spec_refresh_due(dirty: bool, elapsed_ms: u64) -> bool {
    (dirty && elapsed_ms >= TICK_MS) || elapsed_ms >= MAX_REFRESH_INTERVAL_MS
}

/// Whether a tick refreshes: a stale state refreshes at most once per tick
/// interval, so bursts of events coalesce, and a full refresh runs at least
/// every ten seconds regardless, so the display self-heals if an event is
/// ever missed.
pub fn refresh_due(dirty: bool, elapsed_ms: u64) -> (r: bool)
    ensures
        r == spec_refresh_due(dirty, elapsed_ms),
{
    (dirty && elapsed_ms >= TICK_MS) || elapsed_ms >= MAX_REFRESH_INTERVAL_MS
}

/// A refresh is never more than the maximum interval away, and never closer
/// than a tick unless forced.
pub proof fn law_refresh_bounds(dirty: bool, elapsed_ms: u64)
    ensures
        elapsed_ms >= MAX_REFRESH_INTERVAL_MS ==> spec_refresh_due(dirty, elapsed_ms),
        elapsed_ms < TICK_MS ==> !spec_refresh_due(dirty, elapsed_ms),
        !dirty && elapsed_ms < MAX_REFRESH_INTERVAL_MS ==> !spec_refresh_due(dirty, elapsed_ms),
{
}

/// What the worker does with a command from the menu.
#[derive(Debug, Clone, Copy, PartialEq, Eq, Structural)]
pub enum CommandStep {
    /// Shut the tray down and stop.
    Shutdown,
    /// Only mark the state stale, so bursts of refresh requests coalesce.
    MarkDirty,
    /// Carry the command out, then refresh at the next tick.
    Handle,
}

pub open spec fn spec_command_step(c: Command) -> CommandStep {
    match c {
        Command::Quit => CommandStep::Shutdown,
        Command::Refresh => CommandStep::MarkDirty,
        _ => CommandStep::Handle,
    }
}

pub fn command_step(command: &Command) -> (r: CommandStep)
    ensures
        r == spec_command_step(*command),
{
    match command {
        Command::Quit => CommandStep::Shutdown,
        Command::Refresh => CommandStep::MarkDirty,
        _ => CommandStep::Handle,
    }
}

/// What the worker remembers between wake-ups about when to refresh.
#[derive(Debug, Clone, Copy, PartialEq, Eq, Structural)]
pub struct Schedule {
    /// Something may have changed since the last refresh.
    pub dirty: bool,
    /// The next tick refreshes whatever the clock says: at start-up, and
    /// after a command has been carried out.
    pub forced: bool,
}

impl Schedule {
    /// At start-up the first tick refreshes.
    pub fn new() -> (r: Schedule)
        ensures
            r.dirty && r.forced,
    {
        Schedule { dirty: true, forced: true }
    }
}

pub open spec fn spec_after_command(s: Schedule, step: CommandStep) -> Schedule {
    match step {
        CommandStep::Handle => Schedule { dirty: true, forced: true },
        CommandStep::MarkDirty => Schedule { dirty: true, forced: s.forced },
        CommandStep::Shutdown => s,
    }
}

/// The schedule after a command: a command that was carried out forces a
/// refresh at the next tick; a bare refresh request only marks the state
/// stale, so bursts of them coalesce.
pub fn after_command(s: Schedule, step: CommandStep) -> (r: Schedule)
    ensures
        r == spec_after_command(s, step),
{
    match step {
        CommandStep::Handle => Schedule { dirty: true, forced: true },
        CommandStep::MarkDirty => Schedule { dirty: true, forced: s.forced },
        CommandStep::Shutdown => s,
    }
}

pub open spec fn spec_tick_refreshes(s: Schedule, elapsed_ms: u64) -> bool {
    s.forced || spec_refresh_due(s.dirty, elapsed_ms)
}

/// At a tick, `elapsed_ms` after the last refresh: whether to refresh now,
/// and the schedule after the tick. A refresh leaves nothing stale or forced.
pub fn on_tick(s: Schedule, elapsed_ms: u64) -> (r: (Schedule, bool))
    ensures
        r.1 == spec_tick_refreshes(s, elapsed_ms),
        r.1 ==> !r.0.dirty && !r.0.forced,
        !r.1 ==> r.0 == s,
{
    if s.forced || refresh_due(s.dirty, elapsed_ms) {
        (Schedule { dirty: false, forced: false }, true)
    } else {
        (s, false)
    }
}

/// A command that was carried out is always followed by a refresh at the
/// next tick, however recently the last one ran; and without commands,
/// events or the ten-second interval, ticks after a refresh do nothing.
pub proof fn law_commands_refresh_at_next_tick(s: Schedule, elapsed_ms: u64, later_ms: u64)
    ensures
        spec_tick_refreshes(spec_after_command(s, CommandStep::Handle), elapsed_ms),
        ({
            let quiet = Schedule { dirty: false, forced: false };
            later_ms < MAX_REFRESH_INTERVAL_MS ==> !spec_tick_refreshes(quiet, later_ms)
        }),
{
}

/// The schedule after a run of command steps, in order.
pub open spec fn after_commands(s: Schedule, steps: Seq<CommandStep>) -> Schedule
    decreases steps.len(),
{
    if steps.len() == 0 {
        s
    } else {
        spec_after_command(after_commands(s, steps.drop_last()), steps.last())
    }
}

proof fn lemma_requests_only_mark(s: Schedule, steps: Seq<CommandStep>)
    requires
        forall|i: int| 0 <= i < steps.len() ==> steps[i] == CommandStep::MarkDirty,
    ensures
        after_commands(s, steps) == (Schedule { dirty: s.dirty || steps.len() > 0, forced: s.forced }),
    decreases steps.len(),
{
    if steps.len() > 0 {
        lemma_requests_only_mark(s, steps.drop_last());
    }
}

/// Bursts of refresh requests coalesce: after a refresh (which leaves the
/// schedule quiet), however many requests arrive, the next tick refreshes
/// only once a full tick has passed since that refresh, or the ten-second
/// interval has; and with no request it waits for the ten-second interval.
pub proof fn law_refresh_requests_coalesce(steps: Seq<CommandStep>, elapsed_ms: u64)
    requires
        forall|i: int| 0 <= i < steps.len() ==> steps[i] == CommandStep::MarkDirty,
    ensures
        spec_tick_refreshes(after_commands(Schedule { dirty: false, forced: false }, steps), elapsed_ms)
            == ((steps.len() > 0 && elapsed_ms >= TICK_MS) || elapsed_ms >= MAX_REFRESH_INTERVAL_MS),
{
    lemma_requests_only_mark(Schedule { dirty: false, forced: false }, steps);
}

/// Service operations block for as long as systemd takes, so the tray shows a
/// busy state while they are in flight.
pub open spec fn spec_is_service_op(c: Command) -> bool {
    match c {
        Command::Start | Command::Stop | Command::Restart | Command::SetEnabled(_)
        | Command::SetAutostart(_) | Command::InstallUnit => true,
        _ => false,
    }
}

pub fn is_service_op(command: &Command) -> (r: bool)
    ensures
        r == spec_is_service_op(*command),
{
    match command {
        Command::Start | Command::Stop | Command::Restart | Command::SetEnabled(_)
        | Command::SetAutostart(_) | Command::InstallUnit => true,
        _ => false,
    }
}

/// One piece of outside work a command calls for.
#[derive(Debug, Clone, PartialEq, Eq)]
pub enum Effect {
    StartUnit,
    StopUnit,
    RestartUnit,
    EnableUnitFile,
    DisableUnitFile,
    ReloadManager,
    SetAutostart(bool),
    WriteUnitFile,
    OpenWebUi,
    OpenPath(String),
    RescanAll,
    SetAllPaused(bool),
}

/// The outside work each command calls for, in order; the worker stops at
/// the first that fails. Enabling or disabling the unit is followed by a
/// reload of the manager; installing writes the unit, reloads, enables it
/// and starts it.
pub open spec fn spec_dispatch_plan(c: Command) -> Seq<Effect> {
    match c {
        Command::Start => seq![Effect::StartUnit],
        Command::Stop => seq![Effect::StopUnit],
        Command::Restart => seq![Effect::RestartUnit],
        Command::SetEnabled(true) => seq![Effect::EnableUnitFile, Effect::ReloadManager],
        Command::SetEnabled(false) => seq![Effect::DisableUnitFile, Effect::ReloadManager],
        Command::SetAutostart(b) => seq![Effect::SetAutostart(b)],
        Command::InstallUnit => seq![
            Effect::WriteUnitFile,
            Effect::ReloadManager,
            Effect::EnableUnitFile,
            Effect::ReloadManager,
            Effect::StartUnit,
        ],
        Command::OpenWebUi => seq![Effect::OpenWebUi],
        Command::OpenFolder(p) => seq![Effect::OpenPath(p)],
        Command::RescanAll => seq![Effect::RescanAll],
        Command::SetAllPaused(b) => seq![Effect::SetAllPaused(b)],
        Command::Refresh | Command::Quit => Seq::empty(),
    }
}

/// Each unit command does exactly what it names, once: start starts,
/// stop stops and restart restarts the unit.
pub proof fn law_unit_commands_do_what_they_name()
    ensures
        spec_dispatch_plan(Command::Start) == seq![Effect::StartUnit],
        spec_dispatch_plan(Command::Stop) == seq![Effect::StopUnit],
        spec_dispatch_plan(Command::Restart) == seq![Effect::RestartUnit],
{
}

/// The outside work `command` calls for.
pub fn dispatch_plan(command: Command) -> (r: Vec<Effect>)
    ensures
        r@ == spec_dispatch_plan(command),
{
    let mut r: Vec<Effect> = Vec::new();
    match command {
        Command::Start => r.push(Effect::StartUnit),
        Command::Stop => r.push(Effect::StopUnit),
        Command::Restart => r.push(Effect::RestartUnit),
        Command::SetEnabled(enabled) => {
            if enabled {
                r.push(Effect::EnableUnitFile);
            } else {
                r.push(Effect::DisableUnitFile);
            }
            r.push(Effect::ReloadManager);
        },
        Command::SetAutostart(enabled) => r.push(Effect::SetAutostart(enabled)),
        Command::InstallUnit => {
            r.push(Effect::WriteUnitFile);
            r.push(Effect::ReloadManager);
            r.push(Effect::EnableUnitFile);
            r.push(Effect::ReloadManager);
            r.push(Effect::StartUnit);
        },
        Command::OpenWebUi => r.push(Effect::OpenWebUi),
        Command::OpenFolder(path) => r.push(Effect::OpenPath(path)),
        Command::RescanAll => r.push(Effect::RescanAll),
        Command::SetAllPaused(paused) => r.push(Effect::SetAllPaused(paused)),
        Command::Refresh | Command::Quit => {},
    }
    assert(r@ =~= spec_dispatch_plan(command));
    r
}

/// Every field of the state but `busy` and `last_error` is unchanged.
pub open spec fn same_but_outcome(a: AppState, b: AppState) -> bool {
    &&& a.unit == b.unit
    &&& a.api == b.api
    &&& a.folders == b.folders
    &&& a.devices_connected == b.devices_connected
    &&& a.devices_total == b.devices_total
    &&& a.version == b.version
    &&& a.autostart == b.autostart
}

/// Marks the state busy when `command` is a service operation; returns
/// whether the state changed and should be shown before the work starts.
pub fn begin_command(state: &mut AppState, command: &Command) -> (r: bool)
    ensures
        r == spec_is_service_op(*command),
        final(state).busy == (old(state).busy || r),
        final(state).last_error == old(state).last_error,
        same_but_outcome(*final(state), *old(state)),
{
    let op = is_service_op(command);
    if op {
        state.busy = true;
    }
    op
}

/// Records how a command ended: nothing is in flight any more, and the error
/// shown in the menu is the root cause of the failure, or cleared on success.
pub fn finish_command(state: &mut AppState, failure: Option<String>)
    ensures
        !final(state).busy,
        final(state).last_error == failure,
        same_but_outcome(*final(state), *old(state)),
{
    state.busy = false;
    state.last_error = failure;
}

/// Records a fresh snapshot: the API is connected and what it reported is
/// shown.
pub fn apply_snapshot(state: &mut AppState, snapshot: Snapshot)
    ensures
        final(state).api is Connected,
        final(state).folders == snapshot.folders,
        final(state).devices_connected == snapshot.devices_connected,
        final(state).devices_total == snapshot.devices_total,
        final(state).version == Some(snapshot.version),
        final(state).unit == old(state).unit,
        final(state).last_error == old(state).last_error,
        final(state).busy == old(state).busy,
        final(state).autostart == old(state).autostart,
{
    state.api = ApiState::Connected;
    state.folders = snapshot.folders;
    state.devices_connected = snapshot.devices_connected;
    state.devices_total = snapshot.devices_total;
    state.version = Some(snapshot.version);
}

/// Forgets what the API last reported: no folders and no devices.
pub fn clear_remote(state: &mut AppState)
    ensures
        final(state).folders@.len() == 0,
        final(state).devices_connected == 0,
        final(state).devices_total == 0,
        final(state).api == old(state).api,
        final(state).unit == old(state).unit,
        final(state).version == old(state).version,
        final(state).last_error == old(state).last_error,
        final(state).busy == old(state).busy,
        final(state).autostart == old(state).autostart,
{
    state.folders = Vec::new();
    state.devices_connected = 0;
    state.devices_total = 0;
}

/// Records a failed snapshot with its root cause. Returns whether the client
/// should be dropped so that the next tick re-reads `config.xml`: a stale API
/// key survives a Syncthing reinstall, so that is done whenever the unit is
/// not running.
pub fn apply_refresh_failure(state: &mut AppState, why: String) -> (r: bool)
    ensures
        final(state).api == ApiState::Unreachable(why),
        final(state).folders@.len() == 0,
        final(state).devices_connected == 0,
        final(state).devices_total == 0,
        r == !old(state).unit.spec_is_active(),
        final(state).unit == old(state).unit,
        final(state).version == old(state).version,
        final(state).last_error == old(state).last_error,
        final(state).busy == old(state).busy,
        final(state).autostart == old(state).autostart,
{
    state.api = ApiState::Unreachable(why);
    clear_remote(state);
    !state.unit.is_active()
}

/// Records the outcome of building a client: connecting when the
/// configuration was found, not configured (with the reason) otherwise.
pub fn apply_client_outcome(state: &mut AppState, not_configured: Option<String>)
    ensures
        match not_configured {
            Some(why) => final(state).api == ApiState::NotConfigured(why),
            None => final(state).api matches ApiState::Unreachable(w) && w@ == "connecting"@,
        },
        final(state).unit == old(state).unit,
        final(state).folders == old(state).folders,
        final(state).devices_connected == old(state).devices_connected,
        final(state).devices_total == old(state).devices_total,
        final(state).version == old(state).version,
        final(state).last_error == old(state).last_error,
        final(state).busy == old(state).busy,
        final(state).autostart == old(state).autostart,
{
    state.api = match not_configured {
        Some(why) => ApiState::NotConfigured(why),
        None => ApiState::Unreachable(owned("connecting")),
    };
}

/// Records the unit's state and whether the tray autostarts, read at the
/// start of each refresh.
pub fn apply_local(state: &mut AppState, unit: UnitState, autostart: bool)
    ensures
        final(state).unit == unit,
        final(state).autostart == autostart,
        final(state).api == old(state).api,
        final(state).folders == old(state).folders,
        final(state).devices_connected == old(state).devices_connected,
        final(state).devices_total == old(state).devices_total,
        final(state).version == old(state).version,
        final(state).last_error == old(state).last_error,
        final(state).busy == old(state).busy,
{
    state.unit = unit;
    state.autostart = autostart;
}

/// What the event loop does after a poll.
#[derive(Debug, Clone, Copy, PartialEq, Eq, Structural)]
pub struct PollStep {
    /// The cursor to poll from next.
    pub since: u64,
    /// Whether to ask the worker for a refresh.
    pub notify: bool,
    /// Whether to wait before the next poll (and notify after waiting),
    /// because Syncthing is probably down.
    pub back_off: bool,
}

/// After a successful poll, the cursor moves on and the worker is nudged when
/// anything interesting happened; after a failed one, the loop backs off and
/// then nudges the worker, keeping its cursor.
pub fn after_poll(since: u64, events: Option<&Vec<Event>>) -> (r: PollStep)
    ensures
        match events {
            Some(ev) => r.since == spec_next_cursor(ev@, since) && !r.back_off && r.notify == exists|i: int|
                0 <= i < ev@.len() && spec_is_interesting(#[trigger] ev@[i].event_type@),
            None => r.since == since && r.back_off && r.notify,
        },
{
    match events {
        Some(ev) => PollStep { since: next_cursor(ev, since), notify: any_interesting(ev), back_off: false },
        None => PollStep { since, notify: true, back_off: true },
    }
}

/// The address the "Open Web UI" action opens: the client's, or the default
/// GUI address when there is no client.
pub fn web_ui_url(client_url: Option<&str>) -> (r: String)
    ensures
        match client_url {
            Some(u) => r@ == u@,
            None => r@ == DEFAULT_WEB_UI@,
        },
{
    match client_url {
        Some(u) => owned(u),
        None => owned(DEFAULT_WEB_UI),
    }
}

} // verus!
