//! Starting daemons: level by level of their dependencies, then those without
//! a section.
use vstd::prelude::*;

use crate::batch::{adhoc_run_options, build_run_options, StartOptions, StartView};
use crate::batch;
use crate::client::{running_daemons, IpcClient};
use crate::client;
use crate::config::{
    clone_numbers, clone_opt_env, clone_opt_ready_http, PitchforkToml, PitchforkTomlDaemon, Retry,
    RunOptions, RunView,
};
use crate::config;
use crate::daemon::{clone_ids, contains_id, Daemon, DaemonId, IdView};
use crate::daemon;
use crate::lists;
use crate::paths::Locations;
use crate::ports::PortMap;
use crate::text;
use crate::text::{clone_opt, clone_strings};

verus! {

// ---------------------------------------------------------------------------
// Results
// ---------------------------------------------------------------------------

/// What the supervisor answers to a request to run a daemon.
#[derive(Debug)]
pub struct RunResult {
    pub started: bool,
    pub exit_code: Option<i32>,
    /// When the daemon was started, in nanoseconds since the start of 1970.
    pub start_time: i128,
    pub resolved_ports: Vec<u16>,
    /// Why the daemon could not be started.
    pub error_message: Option<String>,
}

#[verifier::ext_equal]
pub struct RunResultView {
    pub started: bool,
    pub exit_code: Option<i32>,
    pub start_time: i128,
    pub resolved_ports: Seq<u16>,
    pub error_message: Option<Seq<char>>,
}

impl View for RunResult {
    type V = RunResultView;

    open spec fn view(&self) -> RunResultView {
        RunResultView {
            started: self.started,
            exit_code: self.exit_code,
            start_time: self.start_time,
            resolved_ports: self.resolved_ports@,
            error_message: text::opt_view(self.error_message),
        }
    }
}

impl Clone for RunResult {
    fn clone(&self) -> (r: Self)
        ensures
            r@ == self@,
    {
        RunResult {
            started: self.started,
            exit_code: self.exit_code,
            start_time: self.start_time,
            resolved_ports: clone_numbers(&self.resolved_ports),
            error_message: clone_opt(&self.error_message),
        }
    }
}

impl RunResult {
    /// Whether the daemon ended instead of starting.
    pub fn ended(&self) -> (r: bool)
        ensures
            r == has_failed(Ok(self@)),
    {
        !self.started && self.exit_code.is_some()
    }
}

pub open spec fn result_view(r: Result<RunResult, String>) -> Result<RunResultView, Seq<char>> {
    match r {
        Ok(r) => Ok(r@),
        Err(e) => Err(e@),
    }
}

/// What came of the request for one daemon.
#[derive(Debug)]
pub struct SpawnTaskResult {
    pub id: DaemonId,
    pub run_result: Result<RunResult, String>,
}

/// What is still to be shown of the request for one daemon.
#[derive(Debug)]
pub struct PendingJobUpdate {
    pub id: DaemonId,
    pub run_result: Result<RunResult, String>,
}

#[verifier::ext_equal]
pub struct UpdateView {
    pub id: IdView,
    pub run_result: Result<RunResultView, Seq<char>>,
}

impl View for SpawnTaskResult {
    type V = UpdateView;

    open spec fn view(&self) -> UpdateView {
        UpdateView { id: self.id@, run_result: result_view(self.run_result) }
    }
}

impl View for PendingJobUpdate {
    type V = UpdateView;

    open spec fn view(&self) -> UpdateView {
        UpdateView { id: self.id@, run_result: result_view(self.run_result) }
    }
}

/// A daemon that was started.
#[derive(Debug)]
pub struct Started {
    pub id: DaemonId,
    pub start_time: i128,
    pub ports: Vec<u16>,
}

#[verifier::ext_equal]
pub struct StartedView {
    pub id: IdView,
    pub start_time: i128,
    pub ports: Seq<u16>,
}

impl View for Started {
    type V = StartedView;

    open spec fn view(&self) -> StartedView {
        StartedView { id: self.id@, start_time: self.start_time, ports: self.ports@ }
    }
}

/// How a task ended.
#[derive(Debug)]
pub enum TaskEnd {
    /// The supervisor answered.
    Ran(SpawnTaskResult),
    /// The daemon's section could not be filled in.
    TemplateError,
    /// The task broke off.
    Panicked,
}

pub enum EndView {
    Ran(UpdateView),
    TemplateError,
    Panicked,
}

impl View for TaskEnd {
    type V = EndView;

    open spec fn view(&self) -> EndView {
        match self {
            TaskEnd::Ran(r) => EndView::Ran(r@),
            TaskEnd::TemplateError => EndView::TemplateError,
            TaskEnd::Panicked => EndView::Panicked,
        }
    }
}

/// What came of starting daemons.
#[derive(Debug)]
pub struct StartResult {
    pub started: Vec<Started>,
    pub any_failed: bool,
    pub pending_job_updates: Vec<PendingJobUpdate>,
}

// ---------------------------------------------------------------------------
// Progress
// ---------------------------------------------------------------------------

/// What has come of the tasks so far.
#[verifier::ext_equal]
pub struct ProgressView {
    pub any_failed: bool,
    pub started: Seq<StartedView>,
    pub updates: Seq<UpdateView>,
}

/// Whether the answer counts as a failure: an error, or a daemon that ended.
pub open spec fn has_failed(r: Result<RunResultView, Seq<char>>) -> bool {
    match r {
        Ok(r) => !r.started && r.exit_code is Some,
        Err(_) => true,
    }
}

impl ProgressView {
    /// The progress after a task has ended.
    pub open spec fn after(self, end: EndView) -> ProgressView {
        match end {
            EndView::Ran(u) => ProgressView {
                any_failed: self.any_failed || has_failed(u.run_result),
                started: match u.run_result {
                    Ok(r) => if r.started {
                        self.started.push(
                            StartedView {
                                id: u.id,
                                start_time: r.start_time,
                                ports: r.resolved_ports,
                            },
                        )
                    } else {
                        self.started
                    },
                    Err(_) => self.started,
                },
                updates: self.updates.push(u),
            },
            _ => ProgressView { any_failed: true, ..self },
        }
    }

    /// The progress after the tasks have ended one after the other.
    pub open spec fn after_all(self, ends: Seq<EndView>) -> ProgressView
        decreases ends.len(),
    {
        if ends.len() == 0 {
            self
        } else {
            self.after_all(ends.drop_last()).after(ends.last())
        }
    }
}

/// What is known of ports after the tasks have ended.
pub open spec fn ports_after(ports: Map<IdView, Seq<u16>>, ends: Seq<EndView>) -> Map<
    IdView,
    Seq<u16>,
>
    decreases ends.len(),
{
    if ends.len() == 0 {
        ports
    } else {
        let before = ports_after(ports, ends.drop_last());
        match ends.last() {
            EndView::Ran(u) => match u.run_result {
                Ok(r) => if r.started {
                    before.insert(u.id, r.resolved_ports)
                } else {
                    before
                },
                Err(_) => before,
            },
            _ => before,
        }
    }
}

pub open spec fn end_views(ends: Seq<TaskEnd>) -> Seq<EndView> {
    ends.map_values(|e: TaskEnd| e@)
}

pub open spec fn started_views(started: Seq<Started>) -> Seq<StartedView> {
    started.map_values(|s: Started| s@)
}

pub open spec fn update_views(updates: Seq<PendingJobUpdate>) -> Seq<UpdateView> {
    updates.map_values(|u: PendingJobUpdate| u@)
}

/// What has come of the tasks so far.
#[derive(Debug)]
pub struct Progress {
    pub any_failed: bool,
    pub started: Vec<Started>,
    pub updates: Vec<PendingJobUpdate>,
}

impl View for Progress {
    type V = ProgressView;

    open spec fn view(&self) -> ProgressView {
        ProgressView {
            any_failed: self.any_failed,
            started: started_views(self.started@),
            updates: update_views(self.updates@),
        }
    }
}

impl Progress {
    fn new() -> (r: Self)
        ensures
            r@ == (ProgressView { any_failed: false, started: Seq::empty(), updates: Seq::empty() }),
    {
        let r = Progress { any_failed: false, started: Vec::new(), updates: Vec::new() };
        assert(r@.started =~= Seq::empty());
        assert(r@.updates =~= Seq::empty());
        r
    }

    fn note(&mut self, end: TaskEnd)
        ensures
            final(self)@ == old(self)@.after(end@),
    {
        let ghost before = self@;
        match end {
            TaskEnd::Ran(task) => {
                match &task.run_result {
                    Ok(r) => {
                        if r.started {
                            let started = Started {
                                id: task.id.clone(),
                                start_time: r.start_time,
                                ports: clone_numbers(&r.resolved_ports),
                            };
                            proof {
                                assert(started_views(self.started@.push(started))
                                    =~= before.started.push(started@));
                            }
                            self.started.push(started);
                        } else if r.exit_code.is_some() {
                            self.any_failed = true;
                        }
                    },
                    Err(_) => {
                        self.any_failed = true;
                    },
                }
                let update = PendingJobUpdate { id: task.id, run_result: task.run_result };
                proof {
                    assert(update_views(self.updates@.push(update)) =~= before.updates.push(
                        update@,
                    ));
                }
                self.updates.push(update);
            },
            _ => {
                self.any_failed = true;
            },
        }
    }
}

// ---------------------------------------------------------------------------
// Sessions
// ---------------------------------------------------------------------------

/// One request to start daemons, while it is worked through.
#[derive(Debug)]
pub struct StartSession {
    pub opts: StartOptions,
    /// The daemons that were asked for.
    pub explicit: Vec<DaemonId>,
    pub disabled: Vec<DaemonId>,
    pub configured: Vec<DaemonId>,
    /// The daemons to be started that have a section.
    pub config_ids: Vec<DaemonId>,
    /// The daemons to be started that have none.
    pub adhoc_ids: Vec<DaemonId>,
    /// What the supervisor knows of daemons without a section.
    pub adhoc: Vec<Daemon>,
    pub running: Vec<DaemonId>,
    pub running_ports: PortMap,
    /// The daemons with a section and what they depend on, in the order in
    /// which they have to be started.
    pub levels: Vec<Vec<DaemonId>>,
    pub next_level: usize,
    pub adhoc_asked: bool,
    /// The ports of the daemons that are started or were running.
    pub ports: PortMap,
    pub progress: Progress,
}

#[verifier::ext_equal]
pub struct SessionView {
    pub opts: StartView,
    pub explicit: Seq<IdView>,
    pub disabled: Seq<IdView>,
    pub configured: Seq<IdView>,
    pub config_ids: Seq<IdView>,
    pub adhoc_ids: Seq<IdView>,
    pub adhoc: Seq<Daemon>,
    pub running: Seq<IdView>,
    pub running_ports: Map<IdView, Seq<u16>>,
    pub levels: Seq<Seq<IdView>>,
    pub next_level: nat,
    pub adhoc_asked: bool,
    pub ports: Map<IdView, Seq<u16>>,
    pub progress: ProgressView,
}

pub open spec fn level_views(levels: Seq<Vec<DaemonId>>) -> Seq<Seq<IdView>> {
    levels.map_values(|l: Vec<DaemonId>| daemon::id_views(l@))
}

impl View for StartSession {
    type V = SessionView;

    open spec fn view(&self) -> SessionView {
        SessionView {
            opts: self.opts@,
            explicit: daemon::id_views(self.explicit@),
            disabled: daemon::id_views(self.disabled@),
            configured: daemon::id_views(self.configured@),
            config_ids: daemon::id_views(self.config_ids@),
            adhoc_ids: daemon::id_views(self.adhoc_ids@),
            adhoc: self.adhoc@,
            running: daemon::id_views(self.running@),
            running_ports: self.running_ports@,
            levels: level_views(self.levels@),
            next_level: self.next_level as nat,
            adhoc_asked: self.adhoc_asked,
            ports: self.ports@,
            progress: self.progress@,
        }
    }
}

/// Why a daemon is not started.
#[derive(Debug, Clone, Copy, PartialEq, Eq, Structural)]
pub enum Skip {
    Disabled,
    /// It runs, and is not to be restarted.
    Running { explicit: bool },
    /// It has no section, and its command was not saved.
    NoCommand,
    /// It has no section, and the supervisor does not know it.
    Unknown,
}

/// What is to be done next.
#[derive(Debug)]
pub enum StartAction {
    /// Start these daemons, from their sections.
    StartLevel(Vec<DaemonId>),
    /// Run these, which have no section.
    StartAdhoc(Vec<RunOptions>),
    Done,
}

pub enum ActionView {
    StartLevel(Seq<IdView>),
    StartAdhoc(Seq<RunView>),
    Done,
}

pub open spec fn run_views(runs: Seq<RunOptions>) -> Seq<RunView> {
    runs.map_values(|r: RunOptions| r@)
}

impl View for StartAction {
    type V = ActionView;

    open spec fn view(&self) -> ActionView {
        match self {
            StartAction::StartLevel(ids) => ActionView::StartLevel(daemon::id_views(ids@)),
            StartAction::StartAdhoc(runs) => ActionView::StartAdhoc(run_views(runs@)),
            StartAction::Done => ActionView::Done,
        }
    }
}

/// The ports of the daemons that run or are about to and have some.
pub open spec fn ports_of_running(daemons: Seq<Daemon>) -> Map<IdView, Seq<u16>>
    decreases daemons.len(),
{
    if daemons.len() == 0 {
        Map::empty()
    } else {
        let rest = ports_of_running(daemons.drop_last());
        let d = daemons.last();
        if d.is_up() && d.resolved_port@.len() > 0 {
            rest.insert(d.id@, d.resolved_port@)
        } else {
            rest
        }
    }
}

/// The daemons without a section, of those that the supervisor knows.
pub open spec fn without_section(known: Seq<Daemon>, configured: Seq<IdView>) -> Seq<Daemon> {
    known.filter(|d: Daemon| !configured.contains(d.id@))
}

/// The daemon with the identifier; the last one where there are several.
pub open spec fn find_daemon(daemons: Seq<Daemon>, id: IdView) -> Option<Daemon>
    decreases daemons.len(),
{
    if daemons.len() == 0 {
        None
    } else if daemons.last().id@ == id {
        Some(daemons.last())
    } else {
        find_daemon(daemons.drop_last(), id)
    }
}

/// The session for a request. Disabled daemons are left out.
pub open spec fn session_of(
    ids: Seq<IdView>,
    opts: StartView,
    configured: Seq<IdView>,
    disabled: Seq<IdView>,
    known: Seq<Daemon>,
    active: Seq<Daemon>,
) -> SessionView {
    SessionView {
        opts,
        explicit: ids,
        disabled,
        configured,
        config_ids: ids.filter(|id: IdView| !disabled.contains(id) && configured.contains(id)),
        adhoc_ids: ids.filter(|id: IdView| !disabled.contains(id) && !configured.contains(id)),
        adhoc: without_section(known, configured),
        running: client::running_ids(active),
        running_ports: ports_of_running(active),
        levels: Seq::empty(),
        next_level: 0,
        adhoc_asked: false,
        ports: Map::empty(),
        progress: ProgressView { any_failed: false, started: Seq::empty(), updates: Seq::empty() },
    }
}

impl SessionView {
    /// Whether a running daemon is to be restarted: only where that is forced
    /// and the daemon was asked for.
    pub open spec fn restarts(self, id: IdView) -> bool {
        self.opts.force && self.explicit.contains(id)
    }

    /// Whether a daemon that does not run, or is to be restarted, is started.
    pub open spec fn may_start(self, id: IdView) -> bool {
        !self.running.contains(id) || self.restarts(id)
    }

    /// Whether a daemon of a level is started.
    pub open spec fn starts(self, id: IdView) -> bool {
        !self.disabled.contains(id) && self.may_start(id) && self.configured.contains(id)
    }

    /// Why a daemon is not started, where it is not.
    pub open spec fn skip_reason(self, id: IdView) -> Option<Skip> {
        if self.disabled.contains(id) {
            Some(Skip::Disabled)
        } else if !self.may_start(id) {
            Some(Skip::Running { explicit: self.explicit.contains(id) })
        } else if self.configured.contains(id) {
            None
        } else {
            match find_daemon(self.adhoc, id) {
                Some(d) => if d.cmd is Some {
                    None
                } else {
                    Some(Skip::NoCommand)
                },
                None => Some(Skip::Unknown),
            }
        }
    }

    /// The daemons of a level that are started.
    pub open spec fn targets(self, level: Seq<IdView>) -> Seq<IdView> {
        level.filter(|id: IdView| self.starts(id))
    }

    /// The options for one daemon: force counts only where it was asked for.
    pub open spec fn options_for(self, id: IdView) -> StartView {
        StartView { force: self.restarts(id), ..self.opts }
    }

    /// What is known of ports once the running daemons of a level are noted.
    pub open spec fn ports_with(self, level: Seq<IdView>) -> Map<IdView, Seq<u16>>
        decreases level.len(),
    {
        if level.len() == 0 {
            self.ports
        } else {
            let rest = self.ports_with(level.drop_last());
            if self.running_ports.dom().contains(level.last()) {
                rest.insert(level.last(), self.running_ports[level.last()])
            } else {
                rest
            }
        }
    }

    /// The request for a daemon without a section, where there is one: the
    /// supervisor has to know the daemon and its command.
    pub open spec fn adhoc_request(self, id: IdView) -> Option<RunView> {
        if !self.may_start(id) {
            None
        } else {
            match find_daemon(self.adhoc, id) {
                Some(d) => match d.cmd {
                    Some(cmd) => Some(
                        batch::adhoc_run(
                            id,
                            text::views(cmd@),
                            match d.dir {
                                Some(dir) => dir@,
                                None => Seq::empty(),
                            },
                            config::opt_env(d.env),
                            config::opt_ready_http(d.ready_http),
                            self.options_for(id),
                        ),
                    ),
                    None => None,
                },
                None => None,
            }
        }
    }

    /// The requests for the daemons without a section, in order.
    pub open spec fn adhoc_requests(self, ids: Seq<IdView>) -> Seq<RunView>
        decreases ids.len(),
    {
        if ids.len() == 0 {
            Seq::empty()
        } else {
            let rest = self.adhoc_requests(ids.drop_last());
            match self.adhoc_request(ids.last()) {
                Some(run) => rest.push(run),
                None => rest,
            }
        }
    }

    /// The session and the action that come next. Levels with nothing to start
    /// are passed over; after a failure nothing more is started.
    pub open spec fn advance(self) -> (SessionView, ActionView)
        decreases self.levels.len() - self.next_level,
    {
        if self.progress.any_failed {
            (self, ActionView::Done)
        } else if self.next_level < self.levels.len() {
            let level = self.levels[self.next_level as int];
            let next = SessionView {
                next_level: self.next_level + 1,
                ports: self.ports_with(level),
                ..self
            };
            if self.targets(level).len() > 0 {
                (next, ActionView::StartLevel(self.targets(level)))
            } else {
                next.advance()
            }
        } else if !self.adhoc_asked && self.adhoc_ids.len() > 0 {
            (
                SessionView { adhoc_asked: true, ..self },
                ActionView::StartAdhoc(self.adhoc_requests(self.adhoc_ids)),
            )
        } else {
            (self, ActionView::Done)
        }
    }
}

fn running_ports(daemons: &Vec<Daemon>) -> (r: PortMap)
    ensures
        r@ == ports_of_running(daemons@),
{
    let ghost all = daemons@;
    let mut out = PortMap::new();
    let mut i: usize = 0;
    assert(all.take(0).len() == 0);
    while i < daemons.len()
        invariant
            i <= daemons@.len(),
            all == daemons@,
            out@ == ports_of_running(all.take(i as int)),
        decreases daemons@.len() - i,
    {
        assert(all.take(i + 1).drop_last() =~= all.take(i as int));
        let d = &daemons[i];
        if d.up() && d.resolved_port.len() > 0 {
            out.insert(&d.id, clone_numbers(&d.resolved_port));
        }
        i += 1;
    }
    assert(all.take(i as int) =~= all);
    out
}

fn drop_configured(known: Vec<Daemon>, configured: &Vec<DaemonId>) -> (r: Vec<Daemon>)
    ensures
        r@ == without_section(known@, daemon::id_views(configured@)),
{
    let ghost all = known@;
    let ghost keep = |d: Daemon| !daemon::id_views(configured@).contains(d.id@);
    let mut out: Vec<Daemon> = Vec::new();
    proof {
        reveal(Seq::filter);
        assert(out@ =~= all.take(0).filter(keep));
    }
    for d in it: known
        invariant
            it.seq() == all,
            keep == (|d: Daemon| !daemon::id_views(configured@).contains(d.id@)),
            out@ == all.take(it.index() as int).filter(keep),
    {
        proof {
            let i = it.index() as int;
            reveal(Seq::filter);
            assert(all.take(i + 1).drop_last() =~= all.take(i));
            assert(all.take(i + 1).last() == d);
            assert(keep(d) == !daemon::id_views(configured@).contains(d.id@));
        }
        if !contains_id(configured, &d.id) {
            out.push(d);
        }
    }
    assert(all.take(all.len() as int) =~= all);
    out
}

/// The requested daemons that may be started, and are configured or are not.
fn requested(
    ids: &Vec<DaemonId>,
    disabled: &Vec<DaemonId>,
    configured: &Vec<DaemonId>,
    with_section: bool,
) -> (r: Vec<DaemonId>)
    ensures
        daemon::id_views(r@) == daemon::id_views(ids@).filter(
            |id: IdView|
                !daemon::id_views(disabled@).contains(id) && daemon::id_views(configured@).contains(
                    id,
                ) == with_section,
        ),
{
    let ghost all = daemon::id_views(ids@);
    let ghost off = daemon::id_views(disabled@);
    let ghost conf = daemon::id_views(configured@);
    let ghost keep = |id: IdView| !off.contains(id) && conf.contains(id) == with_section;
    let mut out: Vec<DaemonId> = Vec::new();
    let mut i: usize = 0;
    proof {
        reveal(Seq::filter);
        assert(daemon::id_views(out@) =~= all.take(0).filter(keep));
    }
    while i < ids.len()
        invariant
            i <= ids@.len(),
            all == daemon::id_views(ids@),
            off == daemon::id_views(disabled@),
            conf == daemon::id_views(configured@),
            keep == (|id: IdView| !off.contains(id) && conf.contains(id) == with_section),
            daemon::id_views(out@) == all.take(i as int).filter(keep),
        decreases ids@.len() - i,
    {
        let id = ids[i].clone();
        proof {
            reveal(Seq::filter);
            assert(all.take(i + 1).drop_last() =~= all.take(i as int));
            assert(all.take(i + 1).last() == id@);
            assert(keep(id@) == (!off.contains(id@) && conf.contains(id@) == with_section));
            assert(daemon::id_views(out@.push(id)) =~= daemon::id_views(out@).push(id@));
        }
        if !contains_id(disabled, &id) && contains_id(configured, &id) == with_section {
            out.push(id);
        }
        i += 1;
    }
    assert(all.take(i as int) =~= all);
    out
}

/// The requested daemons that are not disabled, in order.
pub fn enabled_among(ids: &Vec<DaemonId>, disabled: &Vec<DaemonId>) -> (r: Vec<DaemonId>)
    ensures
        daemon::id_views(r@) == daemon::id_views(ids@).filter(
            |id: IdView| !daemon::id_views(disabled@).contains(id),
        ),
{
    let none: Vec<DaemonId> = Vec::new();
    let r = requested(ids, disabled, &none, false);
    proof {
        let off = daemon::id_views(disabled@);
        let conf = daemon::id_views(none@);
        assert((|id: IdView| !off.contains(id) && conf.contains(id) == false) =~= (|id: IdView|
            !off.contains(id)));
    }
    r
}

impl StartSession {
    /// Opens the session for a request. `known` and `active` are what the
    /// supervisor knows, the latter at the time of the start.
    fn begin(
        ids: &Vec<DaemonId>,
        opts: &StartOptions,
        pt: &PitchforkToml,
        disabled: &Vec<DaemonId>,
        known: Vec<Daemon>,
        active: &Vec<Daemon>,
    ) -> (r: Self)
        ensures
            r@ == session_of(
                daemon::id_views(ids@),
                opts@,
                lists::keys(pt@),
                daemon::id_views(disabled@),
                known@,
                active@,
            ),
    {
        let configured = pt.ids();
        let config_ids = requested(ids, disabled, &configured, true);
        let adhoc_ids = requested(ids, disabled, &configured, false);
        let adhoc = drop_configured(known, &configured);
        let r = StartSession {
            opts: opts.clone(),
            explicit: clone_ids(ids),
            disabled: clone_ids(disabled),
            configured,
            config_ids,
            adhoc_ids,
            adhoc,
            running: running_daemons(active),
            running_ports: running_ports(active),
            levels: Vec::new(),
            next_level: 0,
            adhoc_asked: false,
            ports: PortMap::new(),
            progress: Progress::new(),
        };
        proof {
            let off = daemon::id_views(disabled@);
            let conf = lists::keys(pt@);
            assert((|id: IdView| !off.contains(id) && conf.contains(id) == true) =~= (|id: IdView|
                !off.contains(id) && conf.contains(id)));
            assert((|id: IdView| !off.contains(id) && conf.contains(id) == false) =~= (|id: IdView|
                !off.contains(id) && !conf.contains(id)));
            assert(r@.levels =~= Seq::empty());
        }
        r
    }

    /// Takes over the order in which the daemons with a section are started.
    pub fn set_levels(&mut self, levels: Vec<Vec<DaemonId>>)
        ensures
            final(self)@ == (SessionView {
                levels: level_views(levels@),
                next_level: 0,
                ..old(self)@
            }),
    {
        self.levels = levels;
        self.next_level = 0;
    }

    fn restarts(&self, id: &DaemonId) -> (r: bool)
        ensures
            r == self@.restarts(id@),
    {
        self.opts.force && contains_id(&self.explicit, id)
    }

    fn may_start(&self, id: &DaemonId) -> (r: bool)
        ensures
            r == self@.may_start(id@),
    {
        !contains_id(&self.running, id) || self.restarts(id)
    }

    fn options_for(&self, id: &DaemonId) -> (r: StartOptions)
        ensures
            r@ == self@.options_for(id@),
    {
        let mut opts = self.opts.clone();
        opts.force = self.restarts(id);
        opts
    }

    fn level_targets(&self, level: &Vec<DaemonId>) -> (r: Vec<DaemonId>)
        ensures
            daemon::id_views(r@) == self@.targets(daemon::id_views(level@)),
    {
        let ghost all = daemon::id_views(level@);
        let ghost keep = |id: IdView| self@.starts(id);
        let mut out: Vec<DaemonId> = Vec::new();
        let mut i: usize = 0;
        proof {
            reveal(Seq::filter);
            assert(daemon::id_views(out@) =~= all.take(0).filter(keep));
        }
        while i < level.len()
            invariant
                i <= level@.len(),
                all == daemon::id_views(level@),
                keep == (|id: IdView| self@.starts(id)),
                daemon::id_views(out@) == all.take(i as int).filter(keep),
            decreases level@.len() - i,
        {
            let id = level[i].clone();
            proof {
                reveal(Seq::filter);
                assert(all.take(i + 1).drop_last() =~= all.take(i as int));
                assert(all.take(i + 1).last() == id@);
                assert(keep(id@) == self@.starts(id@));
                assert(daemon::id_views(out@.push(id)) =~= daemon::id_views(out@).push(id@));
            }
            if !contains_id(&self.disabled, &id) && self.may_start(&id) && contains_id(
                &self.configured,
                &id,
            ) {
                out.push(id);
            }
            i += 1;
        }
        assert(all.take(i as int) =~= all);
        out
    }

    fn note_running_ports(&mut self, level: &Vec<DaemonId>)
        ensures
            final(self)@ == (SessionView {
                ports: old(self)@.ports_with(daemon::id_views(level@)),
                ..old(self)@
            }),
    {
        let ghost start = self@;
        let ghost all = daemon::id_views(level@);
        let mut i: usize = 0;
        assert(all.take(0).len() == 0);
        while i < level.len()
            invariant
                i <= level@.len(),
                all == daemon::id_views(level@),
                self@ == (SessionView { ports: start.ports_with(all.take(i as int)), ..start }),
            decreases level@.len() - i,
        {
            proof {
                assert(all.take(i + 1).drop_last() =~= all.take(i as int));
                assert(all.take(i + 1).last() == level@[i as int]@);
            }
            match self.running_ports.get(&level[i]) {
                Some(ports) => {
                    self.ports.insert(&level[i], ports);
                },
                None => {},
            }
            i += 1;
        }
        assert(all.take(i as int) =~= all);
    }

    fn find_adhoc(&self, id: &DaemonId) -> (r: Option<&Daemon>)
        ensures
            match r {
                Some(d) => find_daemon(self@.adhoc, id@) == Some(*d),
                None => find_daemon(self@.adhoc, id@) is None,
            },
    {
        let ghost all = self.adhoc@;
        let mut i: usize = self.adhoc.len();
        assert(all.take(i as int) =~= all);
        while i > 0
            invariant
                i <= self.adhoc@.len(),
                all == self.adhoc@,
                find_daemon(all, id@) == find_daemon(all.take(i as int), id@),
            decreases i,
        {
            i -= 1;
            assert(all.take(i + 1).drop_last() =~= all.take(i as int));
            if self.adhoc[i].id.same(id) {
                return Some(&self.adhoc[i]);
            }
        }
        None
    }

    /// Why a daemon is not started, where it is not.
    pub fn skip_reason(&self, id: &DaemonId) -> (r: Option<Skip>)
        ensures
            r == self@.skip_reason(id@),
    {
        if contains_id(&self.disabled, id) {
            Some(Skip::Disabled)
        } else if !self.may_start(id) {
            Some(Skip::Running { explicit: contains_id(&self.explicit, id) })
        } else if contains_id(&self.configured, id) {
            None
        } else {
            match self.find_adhoc(id) {
                Some(d) => if d.cmd.is_some() {
                    None
                } else {
                    Some(Skip::NoCommand)
                },
                None => Some(Skip::Unknown),
            }
        }
    }

    /// Whether a daemon runs and is to be restarted.
    pub fn is_restart(&self, id: &DaemonId) -> (r: bool)
        ensures
            r == (self@.running.contains(id@) && self@.restarts(id@)),
    {
        contains_id(&self.running, id) && self.restarts(id)
    }

    /// Whether a failure keeps levels that are left from being started.
    pub fn is_aborted(&self) -> (r: bool)
        ensures
            r == (self@.progress.any_failed && self@.next_level < self@.levels.len()),
    {
        self.progress.any_failed && self.next_level < self.levels.len()
    }

    fn adhoc_request(&self, id: &DaemonId) -> (r: Option<RunOptions>)
        ensures
            match r {
                Some(run) => self@.adhoc_request(id@) == Some(run@),
                None => self@.adhoc_request(id@) is None,
            },
    {
        if !self.may_start(id) {
            return None;
        }
        match self.find_adhoc(id) {
            Some(d) => match &d.cmd {
                Some(cmd) => {
                    let dir = match &d.dir {
                        Some(dir) => dir.clone(),
                        None => String::new(),
                    };
                    proof {
                        assert(d.dir is None ==> dir@ =~= Seq::<char>::empty());
                    }
                    Some(
                        adhoc_run_options(
                            id,
                            clone_strings(cmd),
                            dir,
                            clone_opt_env(&d.env),
                            clone_opt_ready_http(&d.ready_http),
                            &self.options_for(id),
                        ),
                    )
                },
                None => None,
            },
            None => None,
        }
    }

    fn all_adhoc_requests(&self) -> (r: Vec<RunOptions>)
        ensures
            run_views(r@) == self@.adhoc_requests(self@.adhoc_ids),
    {
        let ghost all = self@.adhoc_ids;
        let mut out: Vec<RunOptions> = Vec::new();
        let mut i: usize = 0;
        assert(run_views(out@) =~= self@.adhoc_requests(all.take(0)));
        while i < self.adhoc_ids.len()
            invariant
                i <= self.adhoc_ids@.len(),
                all == daemon::id_views(self.adhoc_ids@),
                run_views(out@) == self@.adhoc_requests(all.take(i as int)),
            decreases self.adhoc_ids@.len() - i,
        {
            proof {
                assert(all.take(i + 1).drop_last() =~= all.take(i as int));
                assert(all.take(i + 1).last() == self.adhoc_ids@[i as int]@);
            }
            match self.adhoc_request(&self.adhoc_ids[i]) {
                Some(run) => {
                    proof {
                        assert(run_views(out@.push(run)) =~= run_views(out@).push(run@));
                    }
                    out.push(run);
                },
                None => {},
            }
            i += 1;
        }
        assert(all.take(i as int) =~= all);
        out
    }

    /// Says what is to be done next.
    pub fn next(&mut self) -> (r: StartAction)
        ensures
            (final(self)@, r@) == old(self)@.advance(),
    {
        let ghost goal = self@.advance();
        while !self.progress.any_failed && self.next_level < self.levels.len()
            invariant
                goal == old(self)@.advance(),
                self@.advance() == goal,
            decreases self.levels@.len() - self.next_level,
        {
            let ghost before = self@;
            let level = clone_ids(&self.levels[self.next_level]);
            proof {
                assert(before.levels[before.next_level as int] == daemon::id_views(level@));
            }
            let targets = self.level_targets(&level);
            self.note_running_ports(&level);
            self.next_level += 1;
            if targets.len() > 0 {
                assert(self@ == goal.0);
                return StartAction::StartLevel(targets);
            }
        }
        assert(self@.levels.len() == self.levels@.len());
        if !self.progress.any_failed && !self.adhoc_asked && self.adhoc_ids.len() > 0 {
            let runs = self.all_adhoc_requests();
            self.adhoc_asked = true;
            StartAction::StartAdhoc(runs)
        } else {
            assert(self@.adhoc_ids.len() == self.adhoc_ids@.len());
            StartAction::Done
        }
    }
}

impl IpcClient {
    /// Opens the session for a request to start daemons. `known` is what the
    /// supervisor knew when the request came in.
    pub fn start_daemons(
        &self,
        ids: &Vec<DaemonId>,
        opts: &StartOptions,
        pt: &PitchforkToml,
        known: Vec<Daemon>,
    ) -> (r: StartSession)
        ensures
            r@ == session_of(
                daemon::id_views(ids@),
                opts@,
                lists::keys(pt@),
                daemon::id_views(self.disabled@),
                known@,
                self.active@,
            ),
    {
        StartSession::begin(ids, opts, pt, &self.disabled, known, &self.active)
    }

    /// The request for a one-off daemon.
    pub fn run_adhoc(id: &DaemonId, cmd: Vec<String>, dir: String, opts: &StartOptions) -> (r:
        RunOptions)
        ensures
            r@ == batch::adhoc_run(id@, text::views(cmd@), dir@, None, None, opts@),
    {
        adhoc_run_options(id, cmd, dir, None, None, opts)
    }
}

// ---------------------------------------------------------------------------
// Requests and answers
// ---------------------------------------------------------------------------

impl StartSession {
    /// The request for a daemon of a level, from its section with everything
    /// filled in; an error where the command line does not split into words.
    pub fn level_request(
        &self,
        id: &DaemonId,
        section: &PitchforkTomlDaemon,
        at: &Locations,
    ) -> (r: Result<RunOptions, String>)
        ensures
            match batch::shell_words_of(section@.run) {
                Some(words) => r matches Ok(run) && run@ == batch::built_run(
                    id@,
                    section@,
                    words,
                    self@.options_for(id@),
                    *at,
                ),
                None => r matches Err(e) && e@ == "Failed to parse command: "@ + (
                "Failed to parse command: "@ + "missing closing quote"@),
            },
            batch::plain_line(section@.run) ==> r is Ok && r->Ok_0@ == batch::built_run(
                id@,
                section@,
                batch::blank_words(section@.run),
                self@.options_for(id@),
                *at,
            ),
    {
        match build_run_options(id, section, &self.options_for(id), at) {
            Ok(run) => Ok(run),
            Err(e) => {
                let mut msg = "Failed to parse command: ".to_owned();
                msg.append(e.as_str());
                Err(msg)
            },
        }
    }

    /// Takes over how the tasks of a level ended.
    pub fn end_level(&mut self, ends: Vec<TaskEnd>)
        ensures
            final(self)@ == (SessionView {
                progress: old(self)@.progress.after_all(end_views(ends@)),
                ports: ports_after(old(self)@.ports, end_views(ends@)),
                ..old(self)@
            }),
    {
        let ghost start = self@;
        let ghost all = end_views(ends@);
        assert(all.take(0).len() == 0);
        for end in it: ends
            invariant
                it.seq() == ends@,
                all == end_views(ends@),
                self@ == (SessionView {
                    progress: start.progress.after_all(all.take(it.index() as int)),
                    ports: ports_after(start.ports, all.take(it.index() as int)),
                    ..start
                }),
        {
            proof {
                let i = it.index() as int;
                assert(all.take(i + 1).drop_last() =~= all.take(i));
                assert(all.take(i + 1).last() == end@);
            }
            if let TaskEnd::Ran(task) = &end {
                if let Ok(r) = &task.run_result {
                    if r.started {
                        self.ports.insert(&task.id, clone_numbers(&r.resolved_ports));
                    }
                }
            }
            self.progress.note(end);
        }
        assert(all.take(all.len() as int) =~= all);
    }

    /// Takes over how the tasks for daemons without a section ended.
    pub fn end_adhoc(&mut self, ends: Vec<TaskEnd>)
        ensures
            final(self)@ == (SessionView {
                progress: old(self)@.progress.after_all(end_views(ends@)),
                ..old(self)@
            }),
    {
        let ghost start = self@;
        let ghost all = end_views(ends@);
        assert(all.take(0).len() == 0);
        for end in it: ends
            invariant
                it.seq() == ends@,
                all == end_views(ends@),
                self@ == (SessionView {
                    progress: start.progress.after_all(all.take(it.index() as int)),
                    ..start
                }),
        {
            proof {
                let i = it.index() as int;
                assert(all.take(i + 1).drop_last() =~= all.take(i));
                assert(all.take(i + 1).last() == end@);
            }
            self.progress.note(end);
        }
        assert(all.take(all.len() as int) =~= all);
    }

    /// What came of the request.
    pub fn result(self) -> (r: StartResult)
        ensures
            r.any_failed == self@.progress.any_failed,
            started_views(r.started@) == self@.progress.started,
            update_views(r.pending_job_updates@) == self@.progress.updates,
    {
        StartResult {
            started: self.progress.started,
            any_failed: self.progress.any_failed,
            pending_job_updates: self.progress.updates,
        }
    }
}

// ---------------------------------------------------------------------------
// Laws
// ---------------------------------------------------------------------------

/// What comes next is never a disabled daemon, nor one that runs, unless it
/// was asked for and is to be restarted.
pub proof fn law_only_startable_daemons_are_started(s: SessionView, id: IdView)
    requires
        s.advance().1 matches ActionView::StartLevel(ids) && ids.contains(id),
    ensures
        !s.disabled.contains(id),
        s.configured.contains(id),
        s.running.contains(id) ==> s.opts.force && s.explicit.contains(id),
    decreases s.levels.len() - s.next_level,
{
    let level = s.levels[s.next_level as int];
    let keep = |d: IdView| s.starts(d);
    if s.targets(level).len() > 0 {
        let ids = level.filter(keep);
        let k = choose|k: int| 0 <= k < ids.len() && ids[k] == id;
        level.lemma_filter_pred(keep, k);
        assert(keep(id));
    } else {
        let next = SessionView {
            next_level: s.next_level + 1,
            ports: s.ports_with(level),
            ..s
        };
        law_only_startable_daemons_are_started(next, id);
    }
}

/// A request for a daemon without a section is made only for one that may be
/// started, and restarts a running one only where that is forced and asked for.
pub proof fn law_adhoc_requests_are_startable(s: SessionView, id: IdView)
    requires
        s.adhoc_request(id) is Some,
    ensures
        s.adhoc_request(id)->0.id == id,
        s.running.contains(id) ==> s.opts.force && s.explicit.contains(id),
        s.adhoc_request(id)->0.force == (s.opts.force && s.explicit.contains(id)),
        find_daemon(s.adhoc, id) is Some,
{
}

/// The daemons without a section are taken from the requested ones that are
/// neither disabled nor configured.
pub proof fn law_disabled_daemons_are_left_out(
    ids: Seq<IdView>,
    opts: StartView,
    configured: Seq<IdView>,
    disabled: Seq<IdView>,
    known: Seq<Daemon>,
    active: Seq<Daemon>,
    id: IdView,
)
    ensures
        ({
            let s = session_of(ids, opts, configured, disabled, known, active);
            &&& s.config_ids.contains(id) <==> ids.contains(id) && !disabled.contains(id)
                && configured.contains(id)
            &&& s.adhoc_ids.contains(id) <==> ids.contains(id) && !disabled.contains(id)
                && !configured.contains(id)
        }),
{
    let with = |d: IdView| !disabled.contains(d) && configured.contains(d);
    let without = |d: IdView| !disabled.contains(d) && !configured.contains(d);
    lists::lemma_filter_members(ids, with, id);
    lists::lemma_filter_members(ids, without, id);
}

/// A daemon that is not started has a reason: one with a section is started in
/// its level, and one without is asked for, exactly if there is none.
pub proof fn law_skipped_for_a_reason(s: SessionView, id: IdView)
    requires
        !s.disabled.contains(id) || s.configured.contains(id),
    ensures
        s.configured.contains(id) ==> (s.starts(id) <==> s.skip_reason(id) is None),
        !s.configured.contains(id) ==> (s.adhoc_request(id) is Some <==> s.skip_reason(id) is None),
{
}

/// After a failure nothing more is started, whatever was left to do.
pub proof fn law_nothing_starts_after_a_failure(s: SessionView)
    requires
        s.progress.any_failed,
    ensures
        s.advance() == (s, ActionView::Done),
{
}

/// Whether a task that ended so counts as a failure: one that broke off, or
/// one whose answer does.
pub open spec fn end_failed(end: EndView) -> bool {
    match end {
        EndView::Ran(u) => has_failed(u.run_result),
        _ => true,
    }
}

/// There is a failure exactly if there was one before or a task failed: none
/// is forgotten and none made up.
pub proof fn law_failures_are_counted(p: ProgressView, ends: Seq<EndView>)
    ensures
        p.after_all(ends).any_failed <==> p.any_failed || exists|i: int|
            0 <= i < ends.len() && end_failed(#[trigger] ends[i]),
    decreases ends.len(),
{
    if ends.len() > 0 {
        let rest = ends.drop_last();
        law_failures_are_counted(p, rest);
        assert(p.after_all(ends).any_failed == (p.after_all(rest).any_failed || end_failed(
            ends.last(),
        )));
        if exists|i: int| 0 <= i < ends.len() && end_failed(#[trigger] ends[i]) {
            let i = choose|i: int| 0 <= i < ends.len() && end_failed(#[trigger] ends[i]);
            if i < rest.len() {
                assert(end_failed(rest[i]));
            }
        }
        if exists|i: int| 0 <= i < rest.len() && end_failed(#[trigger] rest[i]) {
            let i = choose|i: int| 0 <= i < rest.len() && end_failed(#[trigger] rest[i]);
            assert(end_failed(ends[i]));
        }
    }
}

/// Whether a task started its daemon.
pub open spec fn end_started(end: EndView) -> bool {
    end matches EndView::Ran(u) && (u.run_result matches Ok(r) && r.started)
}

/// Whether a daemon is the one that a task started, at the time and with the
/// ports that the supervisor named.
pub open spec fn started_by(s: StartedView, end: EndView) -> bool {
    end matches EndView::Ran(u) && (u.run_result matches Ok(r) && r.started && s == (StartedView {
        id: u.id,
        start_time: r.start_time,
        ports: r.resolved_ports,
    }))
}

/// As many daemons are said to be started as tasks started one, each is one
/// that a task started, and every daemon that the supervisor answered for is
/// reported.
pub proof fn law_started_means_started(p: ProgressView, ends: Seq<EndView>)
    ensures
        p.after_all(ends).started.len() == p.started.len() + lists::count(
            ends,
            |e: EndView| end_started(e),
        ),
        p.after_all(ends).updates.len() == p.updates.len() + lists::count(
            ends,
            |e: EndView| e is Ran,
        ),
        forall|k: int|
            p.started.len() <= k < p.after_all(ends).started.len() ==> exists|i: int|
                0 <= i < ends.len() && started_by(
                    #[trigger] p.after_all(ends).started[k],
                    #[trigger] ends[i],
                ),
    decreases ends.len(),
{
    let now = p.after_all(ends);
    if ends.len() > 0 {
        let rest = ends.drop_last();
        let before = p.after_all(rest);
        law_started_means_started(p, rest);
        lists::lemma_count_step(ends, |e: EndView| end_started(e), ends.len() - 1);
        lists::lemma_count_step(ends, |e: EndView| e is Ran, ends.len() - 1);
        assert(ends.take(ends.len() - 1) =~= rest);
        assert(ends.take(ends.len() as int) =~= ends);
        assert forall|k: int| p.started.len() <= k < now.started.len() implies exists|i: int|
            0 <= i < ends.len() && started_by(#[trigger] now.started[k], #[trigger] ends[i]) by {
            if k < before.started.len() {
                assert(now.started[k] == before.started[k]);
                let i = choose|i: int|
                    0 <= i < rest.len() && started_by(before.started[k], #[trigger] rest[i]);
                assert(ends[i] == rest[i]);
                assert(started_by(now.started[k], ends[i]));
            } else {
                assert(started_by(now.started[k], ends[ends.len() - 1]));
            }
        }
    }
}

/// The ports of a daemon are known to the levels after it: where it was
/// started, and where it was running already.
pub proof fn law_ports_become_known(s: SessionView, level: Seq<IdView>, ends: Seq<EndView>, i: int)
    ensures
        0 <= i < ends.len() && end_started(ends[i]) ==> ports_after(
            s.ports,
            ends,
        ).dom().contains(ends[i]->Ran_0.id),
        0 <= i < level.len() && s.running_ports.dom().contains(level[i]) ==> s.ports_with(
            level,
        ).dom().contains(level[i]) && s.ports_with(level)[level[i]] == s.running_ports[level[i]],
    decreases ends.len() + level.len(),
{
    if ends.len() > 0 && i < ends.len() - 1 {
        law_ports_become_known(s, Seq::empty(), ends.drop_last(), i);
    }
    if level.len() > 0 && i < level.len() - 1 {
        law_ports_become_known(s, level.drop_last(), Seq::empty(), i);
    }
}

/// Force counts for a daemon only where it was asked for by its name; all else
/// that the user says holds for every daemon alike.
pub proof fn law_force_counts_where_asked(s: SessionView, id: IdView)
    ensures
        s.options_for(id).force <==> s.opts.force && s.explicit.contains(id),
        s.options_for(id) == (StartView { force: s.options_for(id).force, ..s.opts }),
{
}

/// A level or the daemons without a section are asked for at most once: every
/// step leads further, until there is nothing left to do.
pub proof fn law_sessions_come_to_an_end(s: SessionView)
    ensures
        s.advance().1 is StartLevel ==> s.next_level < s.advance().0.next_level <= s.levels.len(),
        s.advance().1 is StartAdhoc ==> !s.adhoc_asked && s.advance().0.adhoc_asked,
        s.next_level >= s.levels.len() && (s.adhoc_asked || s.adhoc_ids.len() == 0)
            ==> s.advance().1 is Done,
    decreases s.levels.len() - s.next_level,
{
    if !s.progress.any_failed && s.next_level < s.levels.len() {
        let level = s.levels[s.next_level as int];
        let next = SessionView {
            next_level: s.next_level + 1,
            ports: s.ports_with(level),
            ..s
        };
        law_sessions_come_to_an_end(next);
    }
}

/// A level is started as a whole, but for what is disabled, has no section, or
/// runs and is not to be restarted. Levels come one after the other, and none
/// is passed over while something in it is to be started. Without a failure the
/// daemons without a section come once all levels are behind, and there is an
/// end only once they were asked for or there are none.
pub proof fn law_levels_come_first_then_the_rest(s: SessionView)
    requires
        !s.progress.any_failed,
    ensures
        ({
            let (next, action) = s.advance();
            // One level, in its order, with everything in it that is to be started.
            &&& action matches ActionView::StartLevel(ids) ==> {
                &&& s.next_level < next.next_level <= s.levels.len()
                &&& ids.len() > 0
                &&& ids == s.levels[next.next_level - 1].filter(
                    |id: IdView|
                        !s.disabled.contains(id) && s.configured.contains(id) && (
                        !s.running.contains(id) || (s.opts.force && s.explicit.contains(id))),
                )
                &&& next.adhoc_asked == s.adhoc_asked
            }
            // The levels before it hold nothing that is to be started; where no
            // level is started, none of those that are left does.
            &&& forall|k: int, i: int|
                s.next_level <= k < s.levels.len() && (action is StartLevel ==> k < next.next_level
                    - 1) && 0 <= i < s.levels[k].len() ==> {
                    let id = #[trigger] s.levels[k][i];
                    s.disabled.contains(id) || !s.configured.contains(id) || (s.running.contains(id)
                        && !(s.opts.force && s.explicit.contains(id)))
                }
            // Then the daemons without a section, once.
            &&& action !is StartLevel ==> (action is StartAdhoc <==> !s.adhoc_asked
                && s.adhoc_ids.len() > 0)
            &&& action is StartAdhoc ==> next.adhoc_asked
            &&& action is Done ==> next.adhoc_asked == s.adhoc_asked && (s.adhoc_asked
                || s.adhoc_ids.len() == 0)
            &&& action !is StartLevel ==> next.next_level == (if s.next_level < s.levels.len() {
                s.levels.len()
            } else {
                s.next_level
            })
            &&& next == (SessionView {
                next_level: next.next_level,
                ports: next.ports,
                adhoc_asked: next.adhoc_asked,
                ..s
            })
        }),
    decreases s.levels.len() - s.next_level,
{
    if s.next_level < s.levels.len() {
        let n = s.next_level as int;
        let level = s.levels[n];
        let keep = |id: IdView| s.starts(id);
        let plain = |id: IdView|
            !s.disabled.contains(id) && s.configured.contains(id) && (!s.running.contains(id) || (
            s.opts.force && s.explicit.contains(id)));
        assert(keep =~= plain);
        let here = level.filter(keep);
        let after = SessionView {
            next_level: s.next_level + 1,
            ports: s.ports_with(level),
            ..s
        };
        if here.len() == 0 {
            law_levels_come_first_then_the_rest(after);
            assert forall|i: int| 0 <= i < level.len() implies !plain(#[trigger] s.levels[n][i]) by {
                lists::lemma_filter_members(level, keep, level[i]);
                assert(level.contains(level[i]));
            }
            let (next, action) = s.advance();
            assert forall|k: int, i: int|
                s.next_level <= k < s.levels.len() && (action is StartLevel ==> k < next.next_level
                    - 1) && 0 <= i < s.levels[k].len() implies {
                let id = #[trigger] s.levels[k][i];
                s.disabled.contains(id) || !s.configured.contains(id) || (s.running.contains(id)
                    && !(s.opts.force && s.explicit.contains(id)))
            } by {
                if k == n {
                    assert(!plain(s.levels[n][i]));
                } else {
                    let id = after.levels[k][i];
                    assert(id == s.levels[k][i]);
                }
            }
            assert(after.adhoc_ids == s.adhoc_ids && after.adhoc_asked == s.adhoc_asked);
        }
    }
}

/// Whether a place is that of what is known last of a daemon.
pub open spec fn known_last(daemons: Seq<Daemon>, id: IdView, j: int) -> bool {
    &&& 0 <= j < daemons.len()
    &&& daemons[j].id@ == id
    &&& forall|m: int| j < m < daemons.len() ==> (#[trigger] daemons[m]).id@ != id
}

proof fn lemma_find_daemon(daemons: Seq<Daemon>, id: IdView)
    ensures
        match find_daemon(daemons, id) {
            Some(d) => exists|j: int| #[trigger] known_last(daemons, id, j) && daemons[j] == d,
            None => forall|j: int| 0 <= j < daemons.len() ==> (#[trigger] daemons[j]).id@ != id,
        },
    decreases daemons.len(),
{
    if daemons.len() > 0 {
        let rest = daemons.drop_last();
        if daemons.last().id@ == id {
            assert(known_last(daemons, id, daemons.len() - 1));
        } else {
            lemma_find_daemon(rest, id);
            match find_daemon(rest, id) {
                Some(d) => {
                    let j = choose|j: int| #[trigger] known_last(rest, id, j) && rest[j] == d;
                    assert forall|m: int| j < m < daemons.len() implies (
                    #[trigger] daemons[m]).id@ != id by {
                        if m < rest.len() {
                            assert(rest[m].id@ != id);
                        }
                    }
                    assert(known_last(daemons, id, j));
                },
                None => {
                    assert forall|j: int| 0 <= j < daemons.len() implies (
                    #[trigger] daemons[j]).id@ != id by {
                        if j < rest.len() {
                            assert(rest[j].id@ != id);
                        }
                    }
                },
            }
        }
    }
}

proof fn lemma_adhoc_requests(s: SessionView, ids: Seq<IdView>)
    ensures
        s.adhoc_requests(ids).map_values(|r: RunView| r.id) == ids.filter(
            |id: IdView| s.adhoc_request(id) is Some,
        ),
        forall|n: int|
            0 <= n < s.adhoc_requests(ids).len() ==> s.adhoc_request(
                (#[trigger] s.adhoc_requests(ids)[n]).id,
            ) == Some(s.adhoc_requests(ids)[n]),
    decreases ids.len(),
{
    reveal(Seq::filter);
    let name = |r: RunView| r.id;
    let keep = |id: IdView| s.adhoc_request(id) is Some;
    let all = s.adhoc_requests(ids);
    if ids.len() > 0 {
        let rest = ids.drop_last();
        lemma_adhoc_requests(s, rest);
        let before = s.adhoc_requests(rest);
        match s.adhoc_request(ids.last()) {
            Some(run) => {
                assert(run.id == ids.last());
                assert(all.map_values(name) =~= before.map_values(name).push(run.id));
                assert forall|n: int| 0 <= n < all.len() implies s.adhoc_request(
                    (#[trigger] all[n]).id,
                ) == Some(all[n]) by {
                    if n < before.len() {
                        assert(all[n] == before[n]);
                    }
                }
            },
            None => {},
        }
    } else {
        assert(all.map_values(name) =~= ids.filter(keep));
    }
}

/// The requests for daemons without a section: one for each of them that may be
/// started and whose command was saved, in order, and none else. Each is for the
/// saved command in the saved directory and environment, with what the user
/// says; force counts only where the daemon was asked for.
pub proof fn law_saved_commands_are_run(s: SessionView)
    ensures
        s.advance().1 matches ActionView::StartAdhoc(runs) ==> {
            &&& runs.map_values(|r: RunView| r.id) == s.adhoc_ids.filter(
                |id: IdView|
                    (!s.running.contains(id) || (s.opts.force && s.explicit.contains(id)))
                        && exists|j: int| #[trigger]
                        known_last(s.adhoc, id, j) && s.adhoc[j].cmd is Some,
            )
            &&& forall|n: int, j: int|
                #![trigger runs[n], s.adhoc[j]]
                0 <= n < runs.len() && known_last(s.adhoc, runs[n].id, j) ==> {
                    let run = runs[n];
                    let d = s.adhoc[j];
                    &&& d.cmd is Some
                    &&& run.cmd == d.cmd->0@.map_values(|t: String| t@)
                    &&& d.dir matches Some(dir) ==> run.dir == dir@
                    &&& d.dir is None ==> run.dir.len() == 0
                    &&& run.env is Some <==> d.env is Some
                    &&& d.env matches Some(env) ==> run.env == Some(config::env_entries(env))
                    &&& s.opts.http is None ==> (run.ready_http is Some <==> d.ready_http is Some)
                    &&& s.opts.http is None && d.ready_http is Some ==> run.ready_http->0.url
                        == d.ready_http->0.url@ && run.ready_http->0.status
                        == d.ready_http->0.status@
                    &&& s.opts.http is Some ==> run.ready_http is Some && run.ready_http->0.url
                        == s.opts.http->0
                    &&& run.force == (s.opts.force && s.explicit.contains(run.id))
                    &&& run.ready_output == s.opts.output
                    &&& run.ready_port == s.opts.port
                    &&& run.ready_cmd == s.opts.cmd
                    &&& s.opts.delay is Some ==> run.ready_delay == s.opts.delay
                    &&& s.opts.retry is Some ==> run.retry == s.opts.retry->0
                    &&& s.opts.delay is None ==> run.ready_delay == Some(3u64)
                    &&& s.opts.retry is None ==> run.retry == Retry(0)
                    &&& s.opts.expected_port is Some && s.opts.expected_port->0.len() > 0
                        ==> run.port is Some && run.port->0.expect == s.opts.expected_port->0
                    &&& run.port is Some && s.opts.auto_bump_port is Some ==> run.port->0.bump
                        == s.opts.auto_bump_port->0
                    &&& s.opts.expected_port is None && s.opts.auto_bump_port is None ==> run.port
                        is None
                    &&& run.shell_pid == s.opts.shell_pid
                    &&& run.wait_ready
                    &&& run.auto.len() == 0 && run.cron is None && run.depends.len() == 0
                        && run.watch.len() == 0
                }
        },
    decreases s.levels.len() - s.next_level,
{
    if !s.progress.any_failed {
        if s.next_level < s.levels.len() {
            let level = s.levels[s.next_level as int];
            let after = SessionView {
                next_level: s.next_level + 1,
                ports: s.ports_with(level),
                ..s
            };
            if s.targets(level).len() == 0 {
                law_saved_commands_are_run(after);
            }
        } else if !s.adhoc_asked && s.adhoc_ids.len() > 0 {
            let runs = s.adhoc_requests(s.adhoc_ids);
            lemma_adhoc_requests(s, s.adhoc_ids);
            let keep = |id: IdView| s.adhoc_request(id) is Some;
            let plain = |id: IdView|
                (!s.running.contains(id) || (s.opts.force && s.explicit.contains(id)))
                    && exists|j: int| #[trigger]
                    known_last(s.adhoc, id, j) && s.adhoc[j].cmd is Some;
            assert forall|id: IdView| #[trigger] keep(id) == plain(id) by {
                lemma_find_daemon(s.adhoc, id);
                match find_daemon(s.adhoc, id) {
                    Some(d) => {
                        let j = choose|j: int| #[trigger]
                            known_last(s.adhoc, id, j) && s.adhoc[j] == d;
                        if plain(id) {
                            let m = choose|m: int| #[trigger]
                                known_last(s.adhoc, id, m) && s.adhoc[m].cmd is Some;
                            assert(m == j);
                        }
                    },
                    None => {},
                }
            }
            assert(keep =~= plain);
            assert forall|n: int, j: int|
                #![trigger runs[n], s.adhoc[j]]
                0 <= n < runs.len() && known_last(s.adhoc, runs[n].id, j) implies {
                let run = runs[n];
                let d = s.adhoc[j];
                &&& d.cmd is Some
                &&& run == batch::adhoc_run(
                    run.id,
                    text::views(d.cmd->0@),
                    match d.dir {
                        Some(dir) => dir@,
                        None => Seq::empty(),
                    },
                    config::opt_env(d.env),
                    config::opt_ready_http(d.ready_http),
                    s.options_for(run.id),
                )
            } by {
                let id = runs[n].id;
                assert(s.adhoc_request(id) == Some(runs[n]));
                lemma_find_daemon(s.adhoc, id);
                let d = find_daemon(s.adhoc, id)->0;
                let m = choose|m: int| #[trigger] known_last(s.adhoc, id, m) && s.adhoc[m] == d;
                assert(m == j);
            }
        }
    }
}

/// Why a daemon is not started, in terms of what was asked for and what is
/// known.
pub proof fn law_reasons_are_true(s: SessionView, id: IdView)
    ensures
        ({
            let reason = s.skip_reason(id);
            let kept = s.running.contains(id) && !(s.opts.force && s.explicit.contains(id));
            &&& reason == Some(Skip::Disabled) <==> s.disabled.contains(id)
            &&& reason == Some(Skip::Running { explicit: true }) <==> !s.disabled.contains(id)
                && kept && s.explicit.contains(id)
            &&& reason == Some(Skip::Running { explicit: false }) <==> !s.disabled.contains(id)
                && kept && !s.explicit.contains(id)
            &&& reason == Some(Skip::NoCommand) <==> !s.disabled.contains(id) && !kept
                && !s.configured.contains(id) && exists|j: int| #[trigger]
                known_last(s.adhoc, id, j) && s.adhoc[j].cmd is None
            &&& reason == Some(Skip::Unknown) <==> !s.disabled.contains(id) && !kept
                && !s.configured.contains(id) && forall|j: int|
                0 <= j < s.adhoc.len() ==> (#[trigger] s.adhoc[j]).id@ != id
        }),
{
    lemma_find_daemon(s.adhoc, id);
    if let Some(d) = find_daemon(s.adhoc, id) {
        let j = choose|j: int| #[trigger] known_last(s.adhoc, id, j) && s.adhoc[j] == d;
        assert forall|m: int| #[trigger] known_last(s.adhoc, id, m) implies m == j by {}
        assert(s.adhoc[j].id@ == id);
    }
}

/// A session begins with what was asked for and what is known then: what runs,
/// what the supervisor knows of daemons without a section, and the ports of
/// what runs.
pub proof fn law_sessions_begin_with_what_is_known(
    ids: Seq<IdView>,
    opts: StartView,
    configured: Seq<IdView>,
    disabled: Seq<IdView>,
    known: Seq<Daemon>,
    active: Seq<Daemon>,
    id: IdView,
)
    ensures
        ({
            let s = session_of(ids, opts, configured, disabled, known, active);
            &&& s.opts == opts && s.explicit == ids && s.configured == configured && s.disabled
                == disabled
            &&& s.config_ids == ids.filter(
                |d: IdView| !disabled.contains(d) && configured.contains(d),
            )
            &&& s.adhoc_ids == ids.filter(
                |d: IdView| !disabled.contains(d) && !configured.contains(d),
            )
            &&& s.adhoc == known.filter(|d: Daemon| !configured.contains(d.id@))
            &&& s.running.contains(id) <==> exists|i: int|
                0 <= i < active.len() && (#[trigger] active[i]).id@ == id && (active[i].status
                    is Running || active[i].status is Waiting)
            &&& s.running_ports.dom().contains(id) <==> exists|i: int| #[trigger]
                has_ports(active, id, i)
            &&& forall|i: int| #[trigger]
                has_ports(active, id, i) && (forall|m: int|
                    i < m < active.len() ==> !#[trigger] has_ports(active, id, m))
                    ==> s.running_ports[id] == active[i].resolved_port@
            &&& s.levels.len() == 0 && s.next_level == 0 && !s.adhoc_asked
            &&& s.ports == Map::<IdView, Seq<u16>>::empty()
            &&& !s.progress.any_failed && s.progress.started.len() == 0 && s.progress.updates.len()
                == 0
        }),
{
    client::law_running_means_up(active, id);
    lemma_running_ports(active, id);
}

/// Whether a daemon runs, or is about to, and listens on some port, by what is
/// known of it in this place.
pub open spec fn has_ports(daemons: Seq<Daemon>, id: IdView, i: int) -> bool {
    &&& 0 <= i < daemons.len()
    &&& daemons[i].id@ == id
    &&& daemons[i].status is Running || daemons[i].status is Waiting
    &&& daemons[i].resolved_port@.len() > 0
}

proof fn lemma_running_ports(daemons: Seq<Daemon>, id: IdView)
    ensures
        ports_of_running(daemons).dom().contains(id) <==> exists|i: int| #[trigger]
            has_ports(daemons, id, i),
        forall|i: int| #[trigger]
            has_ports(daemons, id, i) && (forall|m: int|
                i < m < daemons.len() ==> !#[trigger] has_ports(daemons, id, m))
                ==> ports_of_running(daemons)[id] == daemons[i].resolved_port@,
    decreases daemons.len(),
{
    if daemons.len() > 0 {
        let rest = daemons.drop_last();
        let n = rest.len() as int;
        lemma_running_ports(rest, id);
        assert forall|i: int| 0 <= i < n implies #[trigger] has_ports(daemons, id, i) == has_ports(
            rest,
            id,
            i,
        ) by {
            assert(daemons[i] == rest[i]);
        }
        if exists|i: int| #[trigger] has_ports(rest, id, i) {
            let i = choose|i: int| #[trigger] has_ports(rest, id, i);
            assert(has_ports(daemons, id, i));
        }
        if exists|i: int| #[trigger] has_ports(daemons, id, i) {
            let i = choose|i: int| #[trigger] has_ports(daemons, id, i);
            assert(i < n ==> has_ports(rest, id, i));
        }
        assert(daemons.last() == daemons[n]);
        assert(daemons[n].id@ == id && daemons[n].is_up() && daemons[n].resolved_port@.len() > 0
            <==> has_ports(daemons, id, n));
        assert forall|i: int| #[trigger]
            has_ports(daemons, id, i) && (forall|m: int|
                i < m < daemons.len() ==> !#[trigger] has_ports(daemons, id, m)) implies
            ports_of_running(daemons)[id] == daemons[i].resolved_port@ by {
            if i < n {
                assert(!has_ports(daemons, id, n));
                assert(has_ports(rest, id, i));
                assert forall|m: int| i < m < rest.len() implies !#[trigger] has_ports(
                    rest,
                    id,
                    m,
                ) by {
                    assert(!has_ports(daemons, id, m));
                }
            }
        }
    }
}

/// What is taken over of the tasks of a level: the daemons that were started,
/// with the times and ports that the supervisor named, and every answer, each
/// in the order of the tasks. A task fails where it broke off, where the daemon
/// could not be asked for, and where the daemon ended instead of starting.
pub proof fn law_answers_are_taken_over(p: ProgressView, ends: Seq<EndView>)
    ensures
        p.after_all(ends).updates == p.updates + ends.filter(|e: EndView| e is Ran).map_values(
            |e: EndView| e->Ran_0,
        ),
        p.after_all(ends).started == p.started + ends.filter(
            |e: EndView|
                e is Ran && e->Ran_0.run_result is Ok && e->Ran_0.run_result->Ok_0.started,
        ).map_values(
            |e: EndView|
                StartedView {
                    id: e->Ran_0.id,
                    start_time: e->Ran_0.run_result->Ok_0.start_time,
                    ports: e->Ran_0.run_result->Ok_0.resolved_ports,
                },
        ),
        p.after_all(ends).any_failed <==> p.any_failed || exists|i: int|
            0 <= i < ends.len() && ((#[trigger] ends[i]) is TemplateError || ends[i] is Panicked || (
            ends[i] is Ran && (ends[i]->Ran_0.run_result is Err || (
            !ends[i]->Ran_0.run_result->Ok_0.started && ends[i]->Ran_0.run_result->Ok_0.exit_code
                is Some)))),
    decreases ends.len(),
{
    reveal(Seq::filter);
    let ran = |e: EndView| e is Ran;
    let answer = |e: EndView| e->Ran_0;
    let up = |e: EndView|
        e is Ran && e->Ran_0.run_result is Ok && e->Ran_0.run_result->Ok_0.started;
    let entry = |e: EndView|
        StartedView {
            id: e->Ran_0.id,
            start_time: e->Ran_0.run_result->Ok_0.start_time,
            ports: e->Ran_0.run_result->Ok_0.resolved_ports,
        };
    let now = p.after_all(ends);
    if ends.len() > 0 {
        let rest = ends.drop_last();
        let last = ends.last();
        let before = p.after_all(rest);
        law_answers_are_taken_over(p, rest);
        assert(ends[ends.len() - 1] == last);
        assert(forall|i: int| 0 <= i < rest.len() ==> ends[i] == #[trigger] rest[i]);
        assert(rest.filter(ran).push(last).map_values(answer) =~= rest.filter(ran).map_values(
            answer,
        ).push(answer(last)));
        assert(rest.filter(up).push(last).map_values(entry) =~= rest.filter(up).map_values(
            entry,
        ).push(entry(last)));
        assert(now.updates =~= p.updates + ends.filter(ran).map_values(answer));
        assert(now.started =~= p.started + ends.filter(up).map_values(entry));
        if before.any_failed && !p.any_failed {
            let i = choose|i: int|
                0 <= i < rest.len() && ((#[trigger] rest[i]) is TemplateError || rest[i] is Panicked
                    || (rest[i] is Ran && (rest[i]->Ran_0.run_result is Err || (
                !rest[i]->Ran_0.run_result->Ok_0.started
                    && rest[i]->Ran_0.run_result->Ok_0.exit_code is Some))));
            assert(ends[i] == rest[i]);
        }
        if exists|i: int|
            0 <= i < ends.len() && ((#[trigger] ends[i]) is TemplateError || ends[i] is Panicked || (
            ends[i] is Ran && (ends[i]->Ran_0.run_result is Err || (
            !ends[i]->Ran_0.run_result->Ok_0.started && ends[i]->Ran_0.run_result->Ok_0.exit_code
                is Some)))) {
            let i = choose|i: int|
                0 <= i < ends.len() && ((#[trigger] ends[i]) is TemplateError || ends[i] is Panicked
                    || (ends[i] is Ran && (ends[i]->Ran_0.run_result is Err || (
                !ends[i]->Ran_0.run_result->Ok_0.started
                    && ends[i]->Ran_0.run_result->Ok_0.exit_code is Some))));
            if i < rest.len() {
                assert(rest[i] == ends[i]);
                assert(before.any_failed);
            }
        }
    } else {
        assert(now.updates =~= p.updates + ends.filter(ran).map_values(answer));
        assert(now.started =~= p.started + ends.filter(up).map_values(entry));
    }
}

/// Whether a task started the daemon.
pub open spec fn started_daemon(ends: Seq<EndView>, id: IdView, i: int) -> bool {
    &&& 0 <= i < ends.len()
    &&& ends[i] is Ran
    &&& ends[i]->Ran_0.id == id
    &&& ends[i]->Ran_0.run_result is Ok
    &&& ends[i]->Ran_0.run_result->Ok_0.started
}

/// The ports of a daemon are those that the last task that started it named;
/// where none did, nothing is learned of it.
pub proof fn law_ports_are_those_of_the_start(
    ports: Map<IdView, Seq<u16>>,
    ends: Seq<EndView>,
    id: IdView,
)
    ensures
        forall|i: int| #[trigger]
            started_daemon(ends, id, i) && (forall|m: int|
                i < m < ends.len() ==> !#[trigger] started_daemon(ends, id, m)) ==> ports_after(
                ports,
                ends,
            ).dom().contains(id) && ports_after(ports, ends)[id]
                == ends[i]->Ran_0.run_result->Ok_0.resolved_ports,
        (forall|i: int| !#[trigger] started_daemon(ends, id, i)) ==> (ports_after(
            ports,
            ends,
        ).dom().contains(id) <==> ports.dom().contains(id)) && (ports.dom().contains(id)
            ==> ports_after(ports, ends)[id] == ports[id]),
    decreases ends.len(),
{
    if ends.len() > 0 {
        let rest = ends.drop_last();
        let n = rest.len() as int;
        law_ports_are_those_of_the_start(ports, rest, id);
        assert(ends[n] == ends.last());
        assert forall|i: int| 0 <= i < n implies #[trigger] started_daemon(rest, id, i)
            == started_daemon(ends, id, i) by {
            assert(rest[i] == ends[i]);
        }
        if forall|i: int| !#[trigger] started_daemon(ends, id, i) {
            assert(!started_daemon(ends, id, n));
            assert forall|i: int| !#[trigger] started_daemon(rest, id, i) by {
                assert(!started_daemon(ends, id, i));
            }
        }
        assert forall|i: int| #[trigger]
            started_daemon(ends, id, i) && (forall|m: int|
                i < m < ends.len() ==> !#[trigger] started_daemon(ends, id, m)) implies ports_after(
            ports,
            ends,
        ).dom().contains(id) && ports_after(ports, ends)[id]
            == ends[i]->Ran_0.run_result->Ok_0.resolved_ports by {
            if i < n {
                assert(!started_daemon(ends, id, n));
                assert(started_daemon(rest, id, i));
                assert forall|m: int| i < m < rest.len() implies !#[trigger] started_daemon(
                    rest,
                    id,
                    m,
                ) by {
                    assert(!started_daemon(ends, id, m));
                }
            }
        }
    }
}

proof fn lemma_ports_with(s: SessionView, level: Seq<IdView>, id: IdView)
    ensures
        ({
            let now = s.ports_with(level);
            if level.contains(id) && s.running_ports.dom().contains(id) {
                now.dom().contains(id) && now[id] == s.running_ports[id]
            } else {
                (now.dom().contains(id) <==> s.ports.dom().contains(id)) && (s.ports.dom().contains(
                    id,
                ) ==> now[id] == s.ports[id])
            }
        }),
    decreases level.len(),
{
    if level.len() > 0 {
        let rest = level.drop_last();
        lemma_ports_with(s, rest, id);
        assert(level =~= rest.push(level.last()));
        lists::lemma_push_contains(rest, level.last(), id);
    }
}

/// The ports of the running daemons of every level that is left behind become
/// known, and what is known of other daemons stays as it was.
pub proof fn law_ports_of_running_daemons_are_noted(s: SessionView, id: IdView)
    ensures
        ({
            let next = s.advance().0;
            if s.running_ports.dom().contains(id) && exists|k: int|
                s.next_level <= k < next.next_level && k < s.levels.len() && (
                #[trigger] s.levels[k]).contains(id) {
                next.ports.dom().contains(id) && next.ports[id] == s.running_ports[id]
            } else {
                (next.ports.dom().contains(id) <==> s.ports.dom().contains(id)) && (
                s.ports.dom().contains(id) ==> next.ports[id] == s.ports[id])
            }
        }),
        s.advance().0.next_level >= s.next_level,
    decreases s.levels.len() - s.next_level,
{
    if !s.progress.any_failed && s.next_level < s.levels.len() {
        let n = s.next_level as int;
        let level = s.levels[n];
        let after = SessionView {
            next_level: s.next_level + 1,
            ports: s.ports_with(level),
            ..s
        };
        lemma_ports_with(s, level, id);
        if s.targets(level).len() == 0 {
            law_ports_of_running_daemons_are_noted(after, id);
            let next = s.advance().0;
            if exists|k: int|
                after.next_level <= k < next.next_level && k < after.levels.len() && (
                #[trigger] after.levels[k]).contains(id) {
                let k = choose|k: int|
                    after.next_level <= k < next.next_level && k < after.levels.len() && (
                    #[trigger] after.levels[k]).contains(id);
                assert(s.levels[k].contains(id));
            }
            if exists|k: int|
                s.next_level <= k < next.next_level && k < s.levels.len() && (
                #[trigger] s.levels[k]).contains(id) {
                let k = choose|k: int|
                    s.next_level <= k < next.next_level && k < s.levels.len() && (
                    #[trigger] s.levels[k]).contains(id);
                assert(k > n ==> after.levels[k].contains(id));
            }
        } else {
            assert(level.contains(id) ==> s.levels[n].contains(id));
        }
    }
}

/// Answers, tasks and actions are seen as they are.
pub proof fn law_answers_are_seen_whole(
    r: RunResult,
    t: SpawnTaskResult,
    u: PendingJobUpdate,
    s: Started,
    e: TaskEnd,
    a: StartAction,
)
    ensures
        r@.started == r.started && r@.exit_code == r.exit_code && r@.start_time == r.start_time,
        r@.resolved_ports == r.resolved_ports@,
        r.error_message is Some ==> r@.error_message == Some(r.error_message->0@),
        r.error_message is None ==> r@.error_message is None,
        t@.id == t.id@,
        t.run_result matches Ok(x) ==> t@.run_result == Ok::<RunResultView, Seq<char>>(x@),
        t.run_result matches Err(x) ==> t@.run_result == Err::<RunResultView, Seq<char>>(x@),
        u@.id == u.id@,
        u.run_result matches Ok(x) ==> u@.run_result == Ok::<RunResultView, Seq<char>>(x@),
        u.run_result matches Err(x) ==> u@.run_result == Err::<RunResultView, Seq<char>>(x@),
        s@.id == s.id@ && s@.start_time == s.start_time && s@.ports == s.ports@,
        e matches TaskEnd::Ran(x) ==> e@ == EndView::Ran(x@),
        e is TemplateError ==> e@ == EndView::TemplateError,
        e is Panicked ==> e@ == EndView::Panicked,
        a matches StartAction::StartLevel(ids) ==> a@ == ActionView::StartLevel(
            ids@.map_values(|id: DaemonId| id@),
        ),
        a matches StartAction::StartAdhoc(runs) ==> a@ == ActionView::StartAdhoc(
            runs@.map_values(|run: RunOptions| run@),
        ),
        a is Done ==> a@ == ActionView::Done,
{
}

/// Every part of a session is seen.
pub proof fn law_sessions_are_seen_whole(s: StartSession, k: int)
    ensures
        s@.opts == s.opts@,
        s@.explicit == s.explicit@.map_values(|id: DaemonId| id@),
        s@.disabled == s.disabled@.map_values(|id: DaemonId| id@),
        s@.configured == s.configured@.map_values(|id: DaemonId| id@),
        s@.config_ids == s.config_ids@.map_values(|id: DaemonId| id@),
        s@.adhoc_ids == s.adhoc_ids@.map_values(|id: DaemonId| id@),
        s@.adhoc == s.adhoc@,
        s@.running == s.running@.map_values(|id: DaemonId| id@),
        s@.running_ports == s.running_ports@,
        s@.levels.len() == s.levels@.len(),
        0 <= k < s.levels@.len() ==> s@.levels[k] == s.levels@[k]@.map_values(|id: DaemonId| id@),
        s@.next_level == s.next_level,
        s@.adhoc_asked == s.adhoc_asked,
        s@.ports == s.ports@,
        s@.progress.any_failed == s.progress.any_failed,
        s@.progress.started == s.progress.started@.map_values(|x: Started| x@),
        s@.progress.updates == s.progress.updates@.map_values(|x: PendingJobUpdate| x@),
{
}

} // verus!
