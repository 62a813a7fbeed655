//! The loop of the terminal front end: what it makes of the user's actions and
//! of what background tasks report.
use vstd::prelude::*;

use crate::app::{App, PendingAction, Surroundings};
use crate::app;
use crate::batch::{StartOptions, StartView};
use crate::batch;
use crate::config::PitchforkToml;
use crate::configure::{SaveInput, SaveStep};
use crate::configure;
use crate::daemon::{DaemonId, DaemonListEntry, IdView};
use crate::daemon;
use crate::network::Listener;
use crate::start::StartResult;
use crate::stop::StopResult;
use crate::text;
use crate::text::number_text;

verus! {

// ---------------------------------------------------------------------------
// Messages
// ---------------------------------------------------------------------------

/// What background tasks report.
#[allow(inconsistent_fields)]
#[derive(Debug)]
pub enum TaskResult {
    Start { id: DaemonId, result: Result<StartResult, String> },
    Stop { id: DaemonId, result: Result<bool, String> },
    Restart { id: DaemonId, result: Result<StartResult, String> },
    Enable { id: DaemonId, result: Result<bool, String> },
    Disable { id: DaemonId, result: Result<bool, String> },
    BatchStart { count: usize, result: Result<StartResult, String> },
    BatchStop { count: usize, result: Result<StopResult, String> },
    BatchRestart { count: usize, result: Result<StartResult, String> },
    BatchEnable { count: usize },
    BatchDisable { count: usize },
    Refresh {
        result: Result<Vec<DaemonListEntry>, String>,
        /// Whether the refresh was asked for by the user, so that its end is
        /// the end of the operation. One in the background ends no operation.
        clears_in_flight: bool,
    },
    RefreshNetwork(Vec<Listener>),
}

impl TaskResult {
    /// Whether an operation on daemons has ended.
    pub open spec fn ends_operation(self) -> bool {
        !(self is Refresh) && !(self is RefreshNetwork)
    }

    /// Whether the operation was on the marked daemons.
    pub open spec fn is_batch(self) -> bool {
        match self {
            TaskResult::BatchStart { .. } => true,
            TaskResult::BatchStop { .. } => true,
            TaskResult::BatchRestart { .. } => true,
            TaskResult::BatchEnable { .. } => true,
            TaskResult::BatchDisable { .. } => true,
            _ => false,
        }
    }

    /// What the user is told of an operation.
    pub open spec fn message(self) -> Seq<char> {
        match self {
            TaskResult::Start { id, result } => match result {
                Ok(r) => if r.any_failed {
                    "Failed to start "@ + id@.qualified()
                } else if r.started@.len() > 0 {
                    "Started "@ + id@.qualified()
                } else {
                    "No daemons were started for "@ + id@.qualified()
                },
                Err(e) => "Failed to start "@ + id@.qualified() + ": "@ + e@,
            },
            TaskResult::Stop { id, result } => match result {
                Ok(true) => "Stopped "@ + id@.qualified(),
                Ok(false) => "Daemon "@ + id@.qualified() + " was not running"@,
                Err(e) => "Failed to stop "@ + id@.qualified() + ": "@ + e@,
            },
            TaskResult::Restart { id, result } => match result {
                Ok(r) => if r.any_failed {
                    "Failed to restart "@ + id@.qualified()
                } else {
                    "Restarted "@ + id@.qualified()
                },
                Err(e) => "Failed to restart "@ + id@.qualified() + ": "@ + e@,
            },
            TaskResult::Enable { id, result } => match result {
                Ok(_) => "Enabled "@ + id@.qualified(),
                Err(e) => "Failed to enable "@ + id@.qualified() + ": "@ + e@,
            },
            TaskResult::Disable { id, result } => match result {
                Ok(_) => "Disabled "@ + id@.qualified(),
                Err(e) => "Failed to disable "@ + id@.qualified() + ": "@ + e@,
            },
            TaskResult::BatchStart { count, result } => match result {
                Ok(r) => batch_message("Started "@, r, count),
                Err(e) => "Failed to start daemons: "@ + e@,
            },
            TaskResult::BatchStop { count, result } => match result {
                Ok(r) => if r.any_failed {
                    "Stopped "@ + text::decimal(count as nat) + " daemons (some failed)"@
                } else {
                    "Stopped "@ + text::decimal(count as nat) + " daemons"@
                },
                Err(e) => "Failed to stop daemons: "@ + e@,
            },
            TaskResult::BatchRestart { count, result } => match result {
                Ok(r) => batch_message("Restarted "@, r, count),
                Err(e) => "Failed to restart daemons: "@ + e@,
            },
            TaskResult::BatchEnable { count } => "Enabled "@ + text::decimal(count as nat)
                + " daemons"@,
            TaskResult::BatchDisable { count } => "Disabled "@ + text::decimal(count as nat)
                + " daemons"@,
            _ => Seq::empty(),
        }
    }
}

/// What the user is told of the start of several daemons.
pub open spec fn batch_message(verb: Seq<char>, r: StartResult, count: usize) -> Seq<char> {
    if r.any_failed {
        verb + text::decimal(r.started@.len()) + "/"@ + text::decimal(count as nat)
            + " daemons (some failed)"@
    } else {
        verb + text::decimal(r.started@.len()) + " daemons"@
    }
}

fn text2(a: &str, b: &str) -> (r: String)
    ensures
        r@ == a@ + b@,
{
    let mut out = a.to_owned();
    out.append(b);
    out
}

fn text3(a: &str, b: &str, c: &str) -> (r: String)
    ensures
        r@ == a@ + b@ + c@,
{
    let mut out = text2(a, b);
    out.append(c);
    out
}

/// What is told of one daemon: the error behind the words where there is one.
fn failure(words: &str, id: &DaemonId, e: &str) -> (r: String)
    ensures
        r@ == words@ + id@.qualified() + ": "@ + e@,
{
    let mut out = text3(words, id.qualified().as_str(), ": ");
    out.append(e);
    out
}

fn batch_text(verb: &str, r: &StartResult, count: usize) -> (m: String)
    ensures
        m@ == batch_message(verb@, *r, count),
{
    let n = number_text(r.started.len() as u64);
    if r.any_failed {
        let mut out = text3(verb, n.as_str(), "/");
        out.append(number_text(count as u64).as_str());
        out.append(" daemons (some failed)");
        out
    } else {
        text3(verb, n.as_str(), " daemons")
    }
}

fn result_message(result: &TaskResult) -> (r: String)
    requires
        result.ends_operation(),
    ensures
        r@ == result.message(),
{
    match result {
        TaskResult::Start { id, result } => match result {
            Ok(r) => if r.any_failed {
                text2("Failed to start ", id.qualified().as_str())
            } else if r.started.len() > 0 {
                text2("Started ", id.qualified().as_str())
            } else {
                text2("No daemons were started for ", id.qualified().as_str())
            },
            Err(e) => failure("Failed to start ", id, e.as_str()),
        },
        TaskResult::Stop { id, result } => match result {
            Ok(true) => text2("Stopped ", id.qualified().as_str()),
            Ok(false) => text3("Daemon ", id.qualified().as_str(), " was not running"),
            Err(e) => failure("Failed to stop ", id, e.as_str()),
        },
        TaskResult::Restart { id, result } => match result {
            Ok(r) => if r.any_failed {
                text2("Failed to restart ", id.qualified().as_str())
            } else {
                text2("Restarted ", id.qualified().as_str())
            },
            Err(e) => failure("Failed to restart ", id, e.as_str()),
        },
        TaskResult::Enable { id, result } => match result {
            Ok(_) => text2("Enabled ", id.qualified().as_str()),
            Err(e) => failure("Failed to enable ", id, e.as_str()),
        },
        TaskResult::Disable { id, result } => match result {
            Ok(_) => text2("Disabled ", id.qualified().as_str()),
            Err(e) => failure("Failed to disable ", id, e.as_str()),
        },
        TaskResult::BatchStart { count, result } => match result {
            Ok(r) => batch_text("Started ", r, *count),
            Err(e) => text2("Failed to start daemons: ", e.as_str()),
        },
        TaskResult::BatchStop { count, result } => match result {
            Ok(r) => if r.any_failed {
                text3(
                    "Stopped ",
                    number_text(*count as u64).as_str(),
                    " daemons (some failed)",
                )
            } else {
                text3("Stopped ", number_text(*count as u64).as_str(), " daemons")
            },
            Err(e) => text2("Failed to stop daemons: ", e.as_str()),
        },
        TaskResult::BatchRestart { count, result } => match result {
            Ok(r) => batch_text("Restarted ", r, *count),
            Err(e) => text2("Failed to restart daemons: ", e.as_str()),
        },
        TaskResult::BatchEnable { count } => text3(
            "Enabled ",
            number_text(*count as u64).as_str(),
            " daemons",
        ),
        TaskResult::BatchDisable { count } => text3(
            "Disabled ",
            number_text(*count as u64).as_str(),
            " daemons",
        ),
        _ => String::new(),
    }
}

// ---------------------------------------------------------------------------
// The loop
// ---------------------------------------------------------------------------

/// The state of the loop.
#[derive(Debug)]
pub struct TuiLoop {
    pub app: App,
    /// Whether an operation on the supervisor is under way.
    pub in_flight: bool,
    /// When the list was refreshed last, in nanoseconds of a clock that never
    /// goes back.
    pub last_refresh: u128,
}

impl TuiLoop {
    pub fn new(app: App, now: u128) -> (r: Self)
        ensures
            r == (TuiLoop { app, in_flight: false, last_refresh: now }),
    {
        TuiLoop { app, in_flight: false, last_refresh: now }
    }

    /// Takes over what a background task reports. Says whether the list is to
    /// be refreshed in the background.
    pub fn handle_result(&mut self, result: TaskResult, at: &Surroundings) -> (refresh: bool)
        ensures
            refresh == result.ends_operation(),
            match result {
                TaskResult::Refresh { result, clears_in_flight } => {
                    let base = if clears_in_flight {
                        App { loading_text: None, ..old(self).app }
                    } else {
                        old(self).app
                    };
                    &&& final(self).in_flight == (old(self).in_flight && !clears_in_flight)
                    &&& final(self).last_refresh == at.now
                    &&& match result {
                        Ok(entries) => final(self).app.refreshed(base, entries@, *at),
                        Err(e) => final(self).app.tells(base, "Refresh failed: "@ + e@, at.now),
                    }
                },
                TaskResult::RefreshNetwork(listeners) => *final(self) == (TuiLoop {
                    app: old(self).app.network_refreshed(listeners),
                    ..*old(self)
                }),
                _ => {
                    &&& !final(self).in_flight
                    &&& final(self).last_refresh == old(self).last_refresh
                    &&& final(self).app.tells(
                        (App {
                            loading_text: None,
                            multi_select: final(self).app.multi_select,
                            ..old(self).app
                        }),
                        result.message(),
                        at.now,
                    )
                    &&& final(self).app.multi_select@ == (if result.is_batch() {
                        Set::empty()
                    } else {
                        old(self).app.multi_select@
                    })
                },
            },
    {
        match result {
            TaskResult::Refresh { result, clears_in_flight } => {
                if clears_in_flight {
                    self.app.stop_loading();
                    self.in_flight = false;
                }
                match result {
                    Ok(entries) => self.app.apply_refresh(entries, at),
                    Err(e) => {
                        let msg = text2("Refresh failed: ", e.as_str());
                        self.app.set_message(msg, at.now);
                    },
                }
                self.last_refresh = at.now;
                false
            },
            TaskResult::RefreshNetwork(listeners) => {
                self.app.apply_network_refresh(listeners);
                false
            },
            other => {
                let msg = result_message(&other);
                let batch = matches!(
                    &other,
                    TaskResult::BatchStart { .. } | TaskResult::BatchStop { .. }
                        | TaskResult::BatchRestart { .. } | TaskResult::BatchEnable { .. }
                        | TaskResult::BatchDisable { .. }
                );
                self.app.stop_loading();
                self.in_flight = false;
                if batch {
                    self.app.clear_selection();
                }
                self.app.set_message(msg, at.now);
                true
            },
        }
    }

    /// How long ago the list was refreshed.
    pub open spec fn elapsed(self, now: u128) -> int {
        if now >= self.last_refresh {
            now - self.last_refresh
        } else {
            0
        }
    }

    /// Whether it is time to refresh the list in the background, and if so,
    /// whether the listeners are to be refreshed too. While an operation is
    /// under way it is not.
    pub fn tick(&mut self, now: u128, refresh_rate: u128) -> (r: Option<bool>)
        ensures
            if old(self).elapsed(now) >= refresh_rate && !old(self).in_flight {
                &&& r == Some(old(self).app.view == app::View::Network)
                &&& *final(self) == (TuiLoop { last_refresh: now, ..*old(self) })
            } else {
                r is None && *final(self) == *old(self)
            },
    {
        let elapsed: u128 = if now >= self.last_refresh {
            now - self.last_refresh
        } else {
            0
        };
        if elapsed >= refresh_rate && !self.in_flight {
            self.last_refresh = now;
            Some(self.app.view == app::View::Network)
        } else {
            None
        }
    }
}

// ---------------------------------------------------------------------------
// Actions
// ---------------------------------------------------------------------------

/// What the user does.
#[derive(Debug)]
pub enum Action {
    Quit,
    Start(DaemonId),
    Enable(DaemonId),
    BatchStart(Vec<DaemonId>),
    BatchEnable(Vec<DaemonId>),
    Refresh,
    OpenEditorNew,
    OpenEditorEdit(DaemonId),
    SaveConfig,
    DeleteDaemon { id: String, config_path: String },
    ConfirmPending,
    /// What has been dealt with already, such as moving about.
    Other,
}

impl Action {
    /// Whether the action has to wait while an operation is under way.
    pub open spec fn waits(self) -> bool {
        match self {
            Action::Start(_) => true,
            Action::Enable(_) => true,
            Action::BatchStart(_) => true,
            Action::BatchEnable(_) => true,
            Action::Refresh => true,
            Action::ConfirmPending => true,
            _ => false,
        }
    }
}

/// Under which name the start of daemons reports.
#[derive(Debug, Clone, Copy, PartialEq, Eq, Structural)]
pub enum Report {
    Start,
    Restart,
    BatchStart,
    BatchRestart,
}

/// What the loop is to do.
#[derive(Debug)]
pub enum Command {
    Nothing,
    Quit,
    StartDaemons { ids: Vec<DaemonId>, opts: StartOptions, report: Report },
    Stop(DaemonId),
    StopDaemons(Vec<DaemonId>),
    Enable(DaemonId),
    EnableAll(Vec<DaemonId>),
    Disable(DaemonId),
    DisableAll(Vec<DaemonId>),
    /// Refresh the list; the end of the refresh is the end of the operation.
    Refresh,
    /// Let the user choose a configuration file.
    ChooseFile,
    /// Read the configuration and open the editor on the daemon.
    LoadEditor(DaemonId),
    /// Save what is in the editor.
    Save,
    /// Delete a daemon from a configuration file.
    Delete { id: String, config_path: String },
}

pub enum CommandView {
    Nothing,
    Quit,
    StartDaemons { ids: Seq<IdView>, opts: StartView, report: Report },
    Stop(IdView),
    StopDaemons(Seq<IdView>),
    Enable(IdView),
    EnableAll(Seq<IdView>),
    Disable(IdView),
    DisableAll(Seq<IdView>),
    Refresh,
    ChooseFile,
    LoadEditor(IdView),
    Save,
    Delete { id: Seq<char>, config_path: Seq<char> },
}

impl View for Command {
    type V = CommandView;

    open spec fn view(&self) -> CommandView {
        match self {
            Command::Nothing => CommandView::Nothing,
            Command::Quit => CommandView::Quit,
            Command::StartDaemons { ids, opts, report } => CommandView::StartDaemons {
                ids: daemon::id_views(ids@),
                opts: opts@,
                report: *report,
            },
            Command::Stop(id) => CommandView::Stop(id@),
            Command::StopDaemons(ids) => CommandView::StopDaemons(daemon::id_views(ids@)),
            Command::Enable(id) => CommandView::Enable(id@),
            Command::EnableAll(ids) => CommandView::EnableAll(daemon::id_views(ids@)),
            Command::Disable(id) => CommandView::Disable(id@),
            Command::DisableAll(ids) => CommandView::DisableAll(daemon::id_views(ids@)),
            Command::Refresh => CommandView::Refresh,
            Command::ChooseFile => CommandView::ChooseFile,
            Command::LoadEditor(id) => CommandView::LoadEditor(id@),
            Command::Save => CommandView::Save,
            Command::Delete { id, config_path } => CommandView::Delete {
                id: id@,
                config_path: config_path@,
            },
        }
    }
}

impl CommandView {
    /// Whether the command is an operation on the supervisor.
    pub open spec fn is_operation(self) -> bool {
        match self {
            CommandView::StartDaemons { .. } => true,
            CommandView::Stop(_) => true,
            CommandView::StopDaemons(_) => true,
            CommandView::Enable(_) => true,
            CommandView::EnableAll(_) => true,
            CommandView::Disable(_) => true,
            CommandView::DisableAll(_) => true,
            CommandView::Refresh => true,
            _ => false,
        }
    }
}

/// The options with which the terminal front end starts daemons.
pub open spec fn quiet_options(force: bool) -> StartView {
    StartView { force, quiet: true, ..batch::no_options() }
}

/// A command and what is shown while it is carried out.
pub struct Plan {
    pub command: CommandView,
    pub loading: Option<Seq<char>>,
}

/// A text about one daemon.
pub open spec fn about(verb: Seq<char>, id: Seq<char>) -> Option<Seq<char>> {
    Some(verb + id + "..."@)
}

/// A text about several daemons.
pub open spec fn about_all(verb: Seq<char>, count: nat) -> Option<Seq<char>> {
    Some(verb + text::decimal(count) + " daemons..."@)
}

/// What becomes of an action that has not to wait.
pub open spec fn action_plan(action: Action) -> Plan {
    match action {
        Action::Quit => Plan { command: CommandView::Quit, loading: None },
        Action::Start(id) => Plan {
            command: CommandView::StartDaemons {
                ids: seq![id@],
                opts: quiet_options(false),
                report: Report::Start,
            },
            loading: about("Starting "@, id@.qualified()),
        },
        Action::Enable(id) => Plan {
            command: CommandView::Enable(id@),
            loading: about("Enabling "@, id@.qualified()),
        },
        Action::BatchStart(ids) => Plan {
            command: CommandView::StartDaemons {
                ids: daemon::id_views(ids@),
                opts: quiet_options(false),
                report: Report::BatchStart,
            },
            loading: about_all("Starting "@, ids@.len()),
        },
        Action::BatchEnable(ids) => Plan {
            command: CommandView::EnableAll(daemon::id_views(ids@)),
            loading: about_all("Enabling "@, ids@.len()),
        },
        Action::Refresh => Plan {
            command: CommandView::Refresh,
            loading: Some("Refreshing..."@),
        },
        Action::OpenEditorNew => Plan { command: CommandView::ChooseFile, loading: None },
        Action::OpenEditorEdit(id) => Plan {
            command: CommandView::LoadEditor(id@),
            loading: None,
        },
        Action::SaveConfig => Plan { command: CommandView::Save, loading: Some("Saving..."@) },
        _ => Plan { command: CommandView::Nothing, loading: None },
    }
}

/// What becomes of an action that was confirmed.
pub open spec fn pending_plan(action: PendingAction) -> Plan {
    match action {
        PendingAction::Stop(id) => Plan {
            command: CommandView::Stop(id@),
            loading: about("Stopping "@, id@.qualified()),
        },
        PendingAction::Restart(id) => Plan {
            command: CommandView::StartDaemons {
                ids: seq![id@],
                opts: quiet_options(true),
                report: Report::Restart,
            },
            loading: about("Restarting "@, id@.qualified()),
        },
        PendingAction::Disable(id) => Plan {
            command: CommandView::Disable(id@),
            loading: about("Disabling "@, id@.qualified()),
        },
        PendingAction::BatchStop(ids) => Plan {
            command: CommandView::StopDaemons(daemon::id_views(ids@)),
            loading: about_all("Stopping "@, ids@.len()),
        },
        PendingAction::BatchRestart(ids) => Plan {
            command: CommandView::StartDaemons {
                ids: daemon::id_views(ids@),
                opts: quiet_options(true),
                report: Report::BatchRestart,
            },
            loading: about_all("Restarting "@, ids@.len()),
        },
        PendingAction::BatchDisable(ids) => Plan {
            command: CommandView::DisableAll(daemon::id_views(ids@)),
            loading: about_all("Disabling "@, ids@.len()),
        },
        PendingAction::DeleteDaemon { id, config_path } => Plan {
            command: CommandView::Delete { id: id@, config_path: config_path@ },
            loading: about("Deleting "@, id@),
        },
        PendingAction::DiscardEditorChanges => Plan {
            command: CommandView::Nothing,
            loading: None,
        },
    }
}

impl App {
    /// Whether the state is the one before but for what is said to be under way.
    pub open spec fn loads(self, before: App, text: Option<Seq<char>>) -> bool {
        match text {
            Some(t) => {
                &&& self.loading_text matches Some(l) && l@ == t
                &&& self == (App { loading_text: self.loading_text, ..before })
            },
            None => self == before,
        }
    }

    /// The state after the editor was closed.
    pub open spec fn editor_closed(self) -> App {
        App {
            editor_state: None,
            file_selector: None,
            view: app::View::Dashboard,
            ..self
        }
    }
}

fn start_options(force: bool) -> (r: StartOptions)
    ensures
        r@ == quiet_options(force),
{
    let mut opts = StartOptions::default();
    opts.force = force;
    opts.quiet = true;
    opts
}

fn just(id: DaemonId) -> (r: Vec<DaemonId>)
    ensures
        daemon::id_views(r@) == seq![id@],
{
    let r = vec![id];
    assert(daemon::id_views(r@) =~= seq![id@]);
    r
}

impl TuiLoop {
    /// Whether the state is that in which a command is carried out: an
    /// operation is under way from then on, and the user is told.
    pub open spec fn carries_out(self, before: TuiLoop, base: App, plan: Plan) -> bool {
        &&& self.in_flight == (before.in_flight || plan.command.is_operation())
        &&& self.last_refresh == before.last_refresh
        &&& self.app.loads(base, plan.loading)
    }

    fn carry_out(&mut self, text: String)
        ensures
            final(self).in_flight,
            final(self).last_refresh == old(self).last_refresh,
            final(self).app.loads(old(self).app, Some(text@)),
    {
        self.in_flight = true;
        self.app.start_loading(text);
    }

    /// What comes of the user's action. While an operation is under way no
    /// other one is begun, and nothing is confirmed.
    pub fn handle_action(&mut self, action: Action) -> (r: Command)
        ensures
            old(self).in_flight ==> !r@.is_operation(),
            r@.is_operation() ==> final(self).in_flight,
            if old(self).in_flight && action.waits() {
                r@ == CommandView::Nothing && *final(self) == *old(self)
            } else {
                match action {
                    Action::ConfirmPending => match old(self).app.pending_action {
                        None => r@ == CommandView::Nothing && *final(self) == (TuiLoop {
                            app: old(self).app.answered(),
                            ..*old(self)
                        }),
                        Some(pending) => {
                            let base = if pending is DiscardEditorChanges {
                                old(self).app.answered().editor_closed()
                            } else {
                                old(self).app.answered()
                            };
                            &&& r@ == pending_plan(pending).command
                            &&& final(self).carries_out(*old(self), base, pending_plan(pending))
                        },
                    },
                    Action::DeleteDaemon { id, config_path } => r@ == CommandView::Nothing
                        && *final(self) == (TuiLoop {
                        app: old(self).app.asking(PendingAction::DeleteDaemon { id, config_path }),
                        ..*old(self)
                    }),
                    _ => {
                        &&& r@ == action_plan(action).command
                        &&& final(self).carries_out(
                            *old(self),
                            old(self).app,
                            action_plan(action),
                        )
                    },
                }
            },
    {
        match action {
            Action::Quit => Command::Quit,
            Action::Start(id) => {
                if self.in_flight {
                    return Command::Nothing;
                }
                self.carry_out(text3("Starting ", id.qualified().as_str(), "..."));
                Command::StartDaemons {
                    ids: just(id),
                    opts: start_options(false),
                    report: Report::Start,
                }
            },
            Action::Enable(id) => {
                if self.in_flight {
                    return Command::Nothing;
                }
                self.carry_out(text3("Enabling ", id.qualified().as_str(), "..."));
                Command::Enable(id)
            },
            Action::BatchStart(ids) => {
                if self.in_flight {
                    return Command::Nothing;
                }
                let count = number_text(ids.len() as u64);
                self.carry_out(text3("Starting ", count.as_str(), " daemons..."));
                Command::StartDaemons {
                    ids,
                    opts: start_options(false),
                    report: Report::BatchStart,
                }
            },
            Action::BatchEnable(ids) => {
                if self.in_flight {
                    return Command::Nothing;
                }
                let count = number_text(ids.len() as u64);
                self.carry_out(text3("Enabling ", count.as_str(), " daemons..."));
                Command::EnableAll(ids)
            },
            Action::Refresh => {
                if self.in_flight {
                    return Command::Nothing;
                }
                self.carry_out("Refreshing...".to_owned());
                Command::Refresh
            },
            Action::OpenEditorNew => Command::ChooseFile,
            Action::OpenEditorEdit(id) => Command::LoadEditor(id),
            Action::SaveConfig => {
                self.app.start_loading("Saving...".to_owned());
                Command::Save
            },
            Action::DeleteDaemon { id, config_path } => {
                self.app.confirm_action(PendingAction::DeleteDaemon { id, config_path });
                Command::Nothing
            },
            Action::ConfirmPending => {
                if self.in_flight {
                    return Command::Nothing;
                }
                match self.app.take_pending_action() {
                    Some(pending) => self.confirm(pending),
                    None => Command::Nothing,
                }
            },
            Action::Other => Command::Nothing,
        }
    }

    /// What comes of an action that was confirmed.
    fn confirm(&mut self, pending: PendingAction) -> (r: Command)
        requires
            !old(self).in_flight,
        ensures
            r@ == pending_plan(pending).command,
            final(self).carries_out(
                *old(self),
                if pending is DiscardEditorChanges {
                    old(self).app.editor_closed()
                } else {
                    old(self).app
                },
                pending_plan(pending),
            ),
    {
        match pending {
            PendingAction::Stop(id) => {
                self.carry_out(text3("Stopping ", id.qualified().as_str(), "..."));
                Command::Stop(id)
            },
            PendingAction::Restart(id) => {
                self.carry_out(text3("Restarting ", id.qualified().as_str(), "..."));
                Command::StartDaemons {
                    ids: just(id),
                    opts: start_options(true),
                    report: Report::Restart,
                }
            },
            PendingAction::Disable(id) => {
                self.carry_out(text3("Disabling ", id.qualified().as_str(), "..."));
                Command::Disable(id)
            },
            PendingAction::BatchStop(ids) => {
                let count = number_text(ids.len() as u64);
                self.carry_out(text3("Stopping ", count.as_str(), " daemons..."));
                Command::StopDaemons(ids)
            },
            PendingAction::BatchRestart(ids) => {
                let count = number_text(ids.len() as u64);
                self.carry_out(text3("Restarting ", count.as_str(), " daemons..."));
                Command::StartDaemons {
                    ids,
                    opts: start_options(true),
                    report: Report::BatchRestart,
                }
            },
            PendingAction::BatchDisable(ids) => {
                let count = number_text(ids.len() as u64);
                self.carry_out(text3("Disabling ", count.as_str(), " daemons..."));
                Command::DisableAll(ids)
            },
            PendingAction::DeleteDaemon { id, config_path } => {
                self.app.start_loading(text3("Deleting ", id.as_str(), "..."));
                Command::Delete { id, config_path }
            },
            PendingAction::DiscardEditorChanges => {
                self.app.close_editor();
                Command::Nothing
            },
        }
    }
}

/// Every operation on the supervisor comes from an action that has to wait
/// while another operation is under way, so that no two are ever under way at
/// once; leaving, editing and saving never wait.
pub proof fn law_operations_wait(action: Action)
    ensures
        action_plan(action).command.is_operation() ==> action.waits(),
        action is Quit || action is OpenEditorNew || action is OpenEditorEdit || action
            is SaveConfig || action is DeleteDaemon ==> !action.waits(),
{
}

// ---------------------------------------------------------------------------
// Saving and deleting
// ---------------------------------------------------------------------------

impl App {
    /// The state with nothing under way.
    pub open spec fn idle(self) -> App {
        App { loading_text: None, ..self }
    }
}

impl TuiLoop {
    /// Checks what is in the editor and works out what its file is to hold;
    /// none where that is not to be written, and the user has been told why.
    pub fn prepare_save(&mut self, input: SaveInput, now: u128) -> (r: Option<PitchforkToml>)
        ensures
            final(self).in_flight == old(self).in_flight,
            final(self).last_refresh == old(self).last_refresh,
            match old(self).app.editor_state {
                None => r is None && final(self).app.tells(
                    old(self).app.idle(),
                    "Save failed: "@ + "No editor state"@,
                    now,
                ),
                Some(before) => {
                    let checked = App {
                        editor_state: final(self).app.editor_state,
                        ..old(self).app
                    };
                    &&& final(self).app.editor_state matches Some(e) && e@ == before@.checked()
                    &&& match configure::save_step(before@, input) {
                        SaveStep::Fails(e) => r is None && final(self).app.tells(
                            checked.idle(),
                            "Save failed: "@ + e,
                            now,
                        ),
                        SaveStep::Tells(t) => r is None && final(self).app.tells(
                            checked.idle(),
                            t,
                            now,
                        ),
                        SaveStep::Writes(c) => r matches Some(written) && written@ == c
                            && final(self).app == checked,
                    }
                },
            },
    {
        match self.app.save_editor_config(input, now) {
            Ok(Some(content)) => Some(content),
            Ok(None) => {
                self.app.stop_loading();
                None
            },
            Err(e) => {
                self.app.stop_loading();
                self.app.set_message(text2("Save failed: ", e.as_str()), now);
                None
            },
        }
    }

    /// Closes the editor once its file was written, or says why it was not.
    /// Says whether the list is to be refreshed in the background.
    pub fn finish_save(&mut self, written: Result<(), String>, now: u128) -> (refresh: bool)
        ensures
            final(self).in_flight == old(self).in_flight,
            final(self).last_refresh == old(self).last_refresh,
            match (written, old(self).app.editor_state) {
                (Ok(_), Some(before)) => refresh && final(self).app.tells(
                    old(self).app.idle().editor_closed(),
                    "Saved daemon '"@ + before@.daemon_id + "'"@,
                    now,
                ),
                (Ok(_), None) => !refresh && final(self).app.tells(
                    old(self).app.idle(),
                    "Save failed: "@ + "No editor state"@,
                    now,
                ),
                (Err(e), _) => !refresh && final(self).app.tells(
                    old(self).app.idle(),
                    "Save failed: "@ + e@,
                    now,
                ),
            },
    {
        match self.app.finish_save(written, now) {
            Ok(_) => {
                self.app.stop_loading();
                self.app.close_editor();
                true
            },
            Err(e) => {
                self.app.stop_loading();
                self.app.set_message(text2("Save failed: ", e.as_str()), now);
                false
            },
        }
    }

    /// Tells the user what came of deleting a daemon: whether it was there, or
    /// why it could not be deleted. The list is refreshed in any case.
    pub fn finish_delete(&mut self, id: &str, outcome: Result<bool, String>, now: u128)
        ensures
            final(self).in_flight == old(self).in_flight,
            final(self).last_refresh == old(self).last_refresh,
            match outcome {
                Ok(true) => final(self).app.tells(
                    old(self).app.idle().editor_closed(),
                    "Deleted "@ + id@,
                    now,
                ),
                Ok(false) => final(self).app.tells(
                    old(self).app.idle(),
                    "Daemon '"@ + id@ + "' not found in config"@,
                    now,
                ),
                Err(e) => final(self).app.tells(
                    old(self).app.idle(),
                    "Delete failed: "@ + e@,
                    now,
                ),
            },
    {
        self.app.stop_loading();
        match outcome {
            Ok(true) => {
                self.app.close_editor();
                self.app.set_message(text2("Deleted ", id), now);
            },
            Ok(false) => {
                self.app.set_message(text3("Daemon '", id, "' not found in config"), now);
            },
            Err(e) => {
                self.app.set_message(text2("Delete failed: ", e.as_str()), now);
            },
        }
    }
}

// ---------------------------------------------------------------------------
// Laws
// ---------------------------------------------------------------------------

/// What the user is told of an operation on one daemon names the daemon, and
/// the error where there was one. A start without a failure that started
/// nothing is told as such.
pub proof fn law_messages_name_the_daemon(result: TaskResult)
    ensures
        result matches TaskResult::Start { id, result: r } ==> {
            &&& r matches Err(e) ==> result.message() == "Failed to start "@ + id@.qualified()
                + ": "@ + e@
            &&& r matches Ok(s) ==> if s.any_failed {
                result.message() == "Failed to start "@ + id@.qualified()
            } else if s.started@.len() > 0 {
                result.message() == "Started "@ + id@.qualified()
            } else {
                result.message() == "No daemons were started for "@ + id@.qualified()
            }
        },
        result matches TaskResult::Stop { id, result: r } ==> {
            &&& r matches Err(e) ==> result.message() == "Failed to stop "@ + id@.qualified() + ": "@
                + e@
            &&& r matches Ok(stopped) ==> if stopped {
                result.message() == "Stopped "@ + id@.qualified()
            } else {
                result.message() == "Daemon "@ + id@.qualified() + " was not running"@
            }
        },
        result matches TaskResult::Restart { id, result: r } ==> {
            &&& r matches Err(e) ==> result.message() == "Failed to restart "@ + id@.qualified()
                + ": "@ + e@
            &&& r matches Ok(s) ==> if s.any_failed {
                result.message() == "Failed to restart "@ + id@.qualified()
            } else {
                result.message() == "Restarted "@ + id@.qualified()
            }
        },
        result matches TaskResult::Enable { id, result: r } ==> {
            &&& r matches Err(e) ==> result.message() == "Failed to enable "@ + id@.qualified()
                + ": "@ + e@
            &&& r is Ok ==> result.message() == "Enabled "@ + id@.qualified()
        },
        result matches TaskResult::Disable { id, result: r } ==> {
            &&& r matches Err(e) ==> result.message() == "Failed to disable "@ + id@.qualified()
                + ": "@ + e@
            &&& r is Ok ==> result.message() == "Disabled "@ + id@.qualified()
        },
{
}

/// What the user is told of an operation on several daemons says how many there
/// were, how many of them were started, and that some failed exactly if so.
pub proof fn law_messages_count_the_daemons(result: TaskResult)
    ensures
        result matches TaskResult::BatchStart { count, result: r } ==> {
            &&& r matches Err(e) ==> result.message() == "Failed to start daemons: "@ + e@
            &&& r matches Ok(s) ==> if s.any_failed {
                result.message() == "Started "@ + text::decimal(s.started@.len()) + "/"@
                    + text::decimal(count as nat) + " daemons (some failed)"@
            } else {
                result.message() == "Started "@ + text::decimal(s.started@.len()) + " daemons"@
            }
        },
        result matches TaskResult::BatchRestart { count, result: r } ==> {
            &&& r matches Err(e) ==> result.message() == "Failed to restart daemons: "@ + e@
            &&& r matches Ok(s) ==> if s.any_failed {
                result.message() == "Restarted "@ + text::decimal(s.started@.len()) + "/"@
                    + text::decimal(count as nat) + " daemons (some failed)"@
            } else {
                result.message() == "Restarted "@ + text::decimal(s.started@.len()) + " daemons"@
            }
        },
        result matches TaskResult::BatchStop { count, result: r } ==> {
            &&& r matches Err(e) ==> result.message() == "Failed to stop daemons: "@ + e@
            &&& r matches Ok(s) ==> if s.any_failed {
                result.message() == "Stopped "@ + text::decimal(count as nat)
                    + " daemons (some failed)"@
            } else {
                result.message() == "Stopped "@ + text::decimal(count as nat) + " daemons"@
            }
        },
        result matches TaskResult::BatchEnable { count } ==> result.message() == "Enabled "@
            + text::decimal(count as nat) + " daemons"@,
        result matches TaskResult::BatchDisable { count } ==> result.message() == "Disabled "@
            + text::decimal(count as nat) + " daemons"@,
{
}

/// An operation ends with every report but that of a refresh, and the marks of
/// daemons go exactly with the end of an operation on the marked ones.
pub proof fn law_which_reports_end_operations(result: TaskResult)
    ensures
        result.ends_operation() <==> !(result is Refresh) && !(result is RefreshNetwork),
        result.is_batch() <==> result is BatchStart || result is BatchStop || result is BatchRestart
            || result is BatchEnable || result is BatchDisable,
        result.is_batch() ==> result.ends_operation(),
{
}

/// The daemons that a plan starts, and how.
pub open spec fn starts_with(plan: Plan, ids: Seq<IdView>, force: bool, report: Report) -> bool {
    plan.command matches CommandView::StartDaemons { ids: targets, opts, report: name } && {
        &&& targets == ids
        &&& name == report
        &&& opts.force == force
        &&& opts.quiet
        &&& opts.shell_pid is None && opts.delay is None && opts.output is None && opts.http is None
            && opts.port is None && opts.cmd is None && opts.expected_port is None
            && opts.auto_bump_port is None && opts.retry is None
    }
}

/// Each action becomes the command that it asks for, on the daemons that it
/// names, and the user sees what is under way. Starting forces nothing.
pub proof fn law_actions_become_their_commands(action: Action)
    ensures
        ({
            let plan = action_plan(action);
            &&& action is Quit ==> plan.command == CommandView::Quit && plan.loading is None
            &&& action matches Action::Start(id) ==> starts_with(
                plan,
                seq![id@],
                false,
                Report::Start,
            ) && plan.loading == Some("Starting "@ + id@.qualified() + "..."@)
            &&& action matches Action::BatchStart(ids) ==> starts_with(
                plan,
                daemon::id_views(ids@),
                false,
                Report::BatchStart,
            ) && plan.loading == Some("Starting "@ + text::decimal(ids@.len()) + " daemons..."@)
            &&& action matches Action::Enable(id) ==> plan.command == CommandView::Enable(id@)
                && plan.loading == Some("Enabling "@ + id@.qualified() + "..."@)
            &&& action matches Action::BatchEnable(ids) ==> plan.command == CommandView::EnableAll(
                daemon::id_views(ids@),
            ) && plan.loading == Some("Enabling "@ + text::decimal(ids@.len()) + " daemons..."@)
            &&& action is Refresh ==> plan.command == CommandView::Refresh && plan.loading == Some(
                "Refreshing..."@,
            )
            &&& action is OpenEditorNew ==> plan.command == CommandView::ChooseFile && plan.loading
                is None
            &&& action matches Action::OpenEditorEdit(id) ==> plan.command
                == CommandView::LoadEditor(id@) && plan.loading is None
            &&& action is SaveConfig ==> plan.command == CommandView::Save && plan.loading == Some(
                "Saving..."@,
            )
            &&& action is Other ==> plan.command == CommandView::Nothing && plan.loading is None
        }),
{
}

/// Each action that was confirmed becomes the command that it asks for, on the
/// daemons that it names. A restart is a start that forces.
pub proof fn law_confirmed_actions_become_their_commands(action: PendingAction)
    ensures
        ({
            let plan = pending_plan(action);
            &&& action matches PendingAction::Stop(id) ==> plan.command == CommandView::Stop(id@)
                && plan.loading == Some("Stopping "@ + id@.qualified() + "..."@)
            &&& action matches PendingAction::Restart(id) ==> starts_with(
                plan,
                seq![id@],
                true,
                Report::Restart,
            ) && plan.loading == Some("Restarting "@ + id@.qualified() + "..."@)
            &&& action matches PendingAction::Disable(id) ==> plan.command == CommandView::Disable(
                id@,
            ) && plan.loading == Some("Disabling "@ + id@.qualified() + "..."@)
            &&& action matches PendingAction::BatchStop(ids) ==> plan.command
                == CommandView::StopDaemons(daemon::id_views(ids@)) && plan.loading == Some(
                "Stopping "@ + text::decimal(ids@.len()) + " daemons..."@,
            )
            &&& action matches PendingAction::BatchRestart(ids) ==> starts_with(
                plan,
                daemon::id_views(ids@),
                true,
                Report::BatchRestart,
            ) && plan.loading == Some("Restarting "@ + text::decimal(ids@.len()) + " daemons..."@)
            &&& action matches PendingAction::BatchDisable(ids) ==> plan.command
                == CommandView::DisableAll(daemon::id_views(ids@)) && plan.loading == Some(
                "Disabling "@ + text::decimal(ids@.len()) + " daemons..."@,
            )
            &&& action matches PendingAction::DeleteDaemon { id, config_path } ==> plan.command == (
            CommandView::Delete { id: id@, config_path: config_path@ }) && plan.loading == Some(
                "Deleting "@ + id@ + "..."@,
            )
            &&& action is DiscardEditorChanges ==> plan.command == CommandView::Nothing
                && plan.loading is None
        }),
{
}

/// What has to wait while an operation is under way, and which commands are
/// operations.
pub proof fn law_what_waits(action: Action, command: CommandView)
    ensures
        action.waits() <==> action is Start || action is Enable || action is BatchStart || action
            is BatchEnable || action is Refresh || action is ConfirmPending,
        command.is_operation() <==> command is StartDaemons || command is Stop || command
            is StopDaemons || command is Enable || command is EnableAll || command is Disable
            || command is DisableAll || command is Refresh,
{
}

/// While a command is carried out, an operation is under way where the command
/// is one, the user sees the text of the plan, and nothing else changes.
pub proof fn law_carrying_out(after: TuiLoop, before: TuiLoop, base: App, plan: Plan)
    requires
        after.carries_out(before, base, plan),
    ensures
        after.in_flight <==> before.in_flight || plan.command is StartDaemons || plan.command
            is Stop || plan.command is StopDaemons || plan.command is Enable || plan.command
            is EnableAll || plan.command is Disable || plan.command is DisableAll || plan.command
            is Refresh,
        after.last_refresh == before.last_refresh,
        plan.loading is None ==> after.app == base,
        plan.loading is Some ==> after.app.loading_text is Some && after.app.loading_text->0@
            == plan.loading->0 && after.app == (App {
            loading_text: after.app.loading_text,
            ..base
        }),
{
}

/// The states that the loop goes back to: one with nothing under way, and one
/// with the editor closed; either is as before in all else.
pub proof fn law_states_to_go_back_to(app: App)
    ensures
        app.idle().loading_text is None,
        app.idle() == (App { loading_text: None, ..app }),
        app.editor_closed().editor_state is None && app.editor_closed().file_selector is None,
        app.editor_closed().view == app::View::Dashboard,
        app.editor_closed() == (App {
            editor_state: None,
            file_selector: None,
            view: app::View::Dashboard,
            ..app
        }),
{
}

/// The time since the last refresh; a clock that went back counts as none.
pub proof fn law_time_since_the_refresh(tui: TuiLoop, now: u128)
    ensures
        now >= tui.last_refresh ==> tui.elapsed(now) == now - tui.last_refresh,
        now < tui.last_refresh ==> tui.elapsed(now) == 0,
{
}

/// A command is seen as what it is.
pub proof fn law_commands_are_seen_as_they_are(c: Command)
    ensures
        c is Nothing ==> c@ == CommandView::Nothing,
        c is Quit ==> c@ == CommandView::Quit,
        c matches Command::StartDaemons { ids, opts, report } ==> c@ == (
        CommandView::StartDaemons {
            ids: ids@.map_values(|id: DaemonId| id@),
            opts: opts@,
            report,
        }),
        c matches Command::Stop(id) ==> c@ == CommandView::Stop(id@),
        c matches Command::StopDaemons(ids) ==> c@ == CommandView::StopDaemons(
            ids@.map_values(|id: DaemonId| id@),
        ),
        c matches Command::Enable(id) ==> c@ == CommandView::Enable(id@),
        c matches Command::EnableAll(ids) ==> c@ == CommandView::EnableAll(
            ids@.map_values(|id: DaemonId| id@),
        ),
        c matches Command::Disable(id) ==> c@ == CommandView::Disable(id@),
        c matches Command::DisableAll(ids) ==> c@ == CommandView::DisableAll(
            ids@.map_values(|id: DaemonId| id@),
        ),
        c is Refresh ==> c@ == CommandView::Refresh,
        c is ChooseFile ==> c@ == CommandView::ChooseFile,
        c matches Command::LoadEditor(id) ==> c@ == CommandView::LoadEditor(id@),
        c is Save ==> c@ == CommandView::Save,
        c matches Command::Delete { id, config_path } ==> c@ == (CommandView::Delete {
            id: id@,
            config_path: config_path@,
        }),
{
}

} // verus!
