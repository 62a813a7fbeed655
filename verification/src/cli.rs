//! What the commands `restart`, `stop` and `run` come to.
use vstd::prelude::*;

use crate::batch::{choose_check, ReadyCheckType, StartOptions, StartView};
use crate::batch;
use crate::config::{clone_numbers, PortBump, Retry};
use crate::daemon::DaemonId;
use crate::start::RunResult;
use crate::text;
use crate::text::clone_opt;

verus! {

// ---------------------------------------------------------------------------
// Which daemons are meant
// ---------------------------------------------------------------------------

/// Which daemons a command is about.
#[derive(Debug, Clone, Copy, PartialEq, Eq, Structural)]
pub enum Selection {
    /// All that run.
    Running,
    /// Those that run and are configured in global or in project files.
    Configured { global: bool },
    /// Those that are named, and those of the group that is named.
    Named,
}

/// The daemons that the arguments mean; none where they mean none.
pub open spec fn selected(
    named: nat,
    group: bool,
    all: bool,
    local: bool,
    global: bool,
) -> Option<Selection> {
    if all {
        Some(Selection::Running)
    } else if global || local {
        Some(Selection::Configured { global })
    } else if named > 0 || group {
        Some(Selection::Named)
    } else {
        None
    }
}

/// What is said where the arguments mean no daemon.
pub const NOTHING_SELECTED: &'static str =
    "At least one daemon ID, --group, or one of --all / --local / --global must be provided";

fn select(named: usize, group: bool, all: bool, local: bool, global: bool) -> (r: Result<
    Selection,
    String,
>)
    ensures
        match selected(named as nat, group, all, local, global) {
            Some(s) => r == Ok::<Selection, String>(s),
            None => r matches Err(e) && e@ == NOTHING_SELECTED@,
        },
{
    if all {
        Ok(Selection::Running)
    } else if global || local {
        Ok(Selection::Configured { global })
    } else if named > 0 || group {
        Ok(Selection::Named)
    } else {
        Err(NOTHING_SELECTED.to_owned())
    }
}

// ---------------------------------------------------------------------------
// Restart
// ---------------------------------------------------------------------------

/// Stops daemons and starts them again.
#[derive(Debug)]
pub struct Restart {
    pub id: Vec<String>,
    pub group: Option<String>,
    pub all: bool,
    pub local: bool,
    pub global: bool,
    pub delay: Option<u64>,
    pub output: Option<String>,
    pub http: Option<String>,
    pub port: Option<u16>,
    pub cmd: Option<String>,
    pub quiet: bool,
}

/// How far a command has come.
#[derive(Debug)]
pub enum Event {
    /// It was given.
    Given,
    /// The daemons that it is about are known.
    Selected(Vec<DaemonId>),
    /// It was carried out.
    Finished { any_failed: bool },
}

/// What a command does next.
#[derive(Debug)]
pub enum Step {
    /// Find out which daemons it is about.
    Select(Selection),
    /// Start the daemons.
    Start { ids: Vec<DaemonId>, opts: StartOptions },
    /// Stop the daemons.
    Stop { ids: Vec<DaemonId> },
    /// Say that there is nothing to do, and end.
    Warn(&'static str),
    /// End with success.
    Succeed,
    /// End the program with the exit code.
    Exit(i32),
}

impl Restart {
    /// The daemons that the arguments mean.
    pub open spec fn selection(self) -> Option<Selection> {
        selected(self.id@.len(), self.group is Some, self.all, self.local, self.global)
    }

    /// A restart is a start that restarts what is running.
    pub open spec fn options(self) -> StartView {
        StartView {
            force: true,
            delay: self.delay,
            output: text::opt_view(self.output),
            http: text::opt_view(self.http),
            port: self.port,
            cmd: text::opt_view(self.cmd),
            quiet: self.quiet,
            ..batch::no_options()
        }
    }

    fn start_options(&self) -> (r: StartOptions)
        ensures
            r@ == self.options(),
    {
        let mut opts = StartOptions::default();
        opts.force = true;
        opts.delay = self.delay;
        opts.output = clone_opt(&self.output);
        opts.http = clone_opt(&self.http);
        opts.port = self.port;
        opts.cmd = clone_opt(&self.cmd);
        opts.quiet = self.quiet;
        opts
    }

    /// What the command does next.
    pub fn run(&self, event: Event) -> (r: Result<Step, String>)
        ensures
            match event {
                Event::Given => match self.selection() {
                    Some(s) => r == Ok::<Step, String>(Step::Select(s)),
                    None => r matches Err(e) && e@ == NOTHING_SELECTED@,
                },
                Event::Selected(ids) => if ids@.len() == 0 {
                    r matches Ok(Step::Warn(w)) && w@ == "No daemons to restart"@
                } else {
                    r matches Ok(Step::Start { ids: targets, opts }) && targets == ids && opts@
                        == self.options()
                },
                Event::Finished { any_failed } => r == Ok::<Step, String>(
                    if any_failed {
                        Step::Exit(1)
                    } else {
                        Step::Succeed
                    },
                ),
            },
    {
        match event {
            Event::Given => match select(
                self.id.len(),
                self.group.is_some(),
                self.all,
                self.local,
                self.global,
            ) {
                Ok(s) => Ok(Step::Select(s)),
                Err(e) => Err(e),
            },
            Event::Selected(ids) => if ids.len() == 0 {
                Ok(Step::Warn("No daemons to restart"))
            } else {
                Ok(Step::Start { ids, opts: self.start_options() })
            },
            Event::Finished { any_failed } => if any_failed {
                Ok(Step::Exit(1))
            } else {
                Ok(Step::Succeed)
            },
        }
    }
}

// ---------------------------------------------------------------------------
// Stop
// ---------------------------------------------------------------------------

/// Stops daemons.
#[derive(Debug)]
pub struct Stop {
    pub id: Vec<String>,
    pub group: Option<String>,
    pub all: bool,
    pub local: bool,
    pub global: bool,
}

impl Stop {
    /// The daemons that the arguments mean.
    pub open spec fn selection(self) -> Option<Selection> {
        selected(self.id@.len(), self.group is Some, self.all, self.local, self.global)
    }

    /// What the command does next.
    pub fn run(&self, event: Event) -> (r: Result<Step, String>)
        ensures
            match event {
                Event::Given => match self.selection() {
                    Some(s) => r == Ok::<Step, String>(Step::Select(s)),
                    None => r matches Err(e) && e@ == NOTHING_SELECTED@,
                },
                Event::Selected(ids) => if ids@.len() == 0 {
                    r matches Ok(Step::Warn(w)) && w@ == "No daemons to stop"@
                } else {
                    r == Ok::<Step, String>(Step::Stop { ids })
                },
                Event::Finished { any_failed } => r == Ok::<Step, String>(
                    if any_failed {
                        Step::Exit(1)
                    } else {
                        Step::Succeed
                    },
                ),
            },
    {
        match event {
            Event::Given => match select(
                self.id.len(),
                self.group.is_some(),
                self.all,
                self.local,
                self.global,
            ) {
                Ok(s) => Ok(Step::Select(s)),
                Err(e) => Err(e),
            },
            Event::Selected(ids) => if ids.len() == 0 {
                Ok(Step::Warn("No daemons to stop"))
            } else {
                Ok(Step::Stop { ids })
            },
            Event::Finished { any_failed } => if any_failed {
                Ok(Step::Exit(1))
            } else {
                Ok(Step::Succeed)
            },
        }
    }
}

// ---------------------------------------------------------------------------
// Run
// ---------------------------------------------------------------------------

/// Runs a one-off daemon.
#[derive(Debug)]
pub struct Run {
    pub id: String,
    /// The command and its arguments.
    pub run: Vec<String>,
    pub force: bool,
    pub retry: u32,
    pub delay: Option<u64>,
    pub output: Option<String>,
    pub http: Option<String>,
    pub port: Option<u16>,
    pub expected_port: Vec<u16>,
    /// Whether an occupied port may be moved up, and how far where that is said.
    pub bump: Option<Option<u32>>,
    pub cmd: Option<String>,
    pub quiet: bool,
}

/// How the one-off daemon is run.
#[derive(Debug)]
pub struct RunPlan {
    pub opts: StartOptions,
    /// What is waited for on screen; nothing is shown where it is missing.
    pub check: Option<ReadyCheckType>,
}

impl Run {
    /// What the arguments say. A bump without a number is as far as the
    /// settings say.
    pub open spec fn options(self, default_bump: u32) -> StartView {
        StartView {
            force: self.force,
            shell_pid: None,
            delay: self.delay,
            output: text::opt_view(self.output),
            http: text::opt_view(self.http),
            port: self.port,
            cmd: text::opt_view(self.cmd),
            expected_port: if self.expected_port@.len() > 0 {
                Some(self.expected_port@)
            } else {
                None
            },
            auto_bump_port: match self.bump {
                None => None,
                Some(None) => Some(PortBump(default_bump)),
                Some(Some(n)) => Some(PortBump(n)),
            },
            retry: Some(Retry(self.retry)),
            quiet: self.quiet,
        }
    }

    fn start_options(&self, default_bump: u32) -> (r: StartOptions)
        ensures
            r@ == self.options(default_bump),
    {
        StartOptions {
            force: self.force,
            shell_pid: None,
            delay: self.delay,
            output: clone_opt(&self.output),
            http: clone_opt(&self.http),
            port: self.port,
            cmd: clone_opt(&self.cmd),
            expected_port: if self.expected_port.len() > 0 {
                Some(clone_numbers(&self.expected_port))
            } else {
                None
            },
            auto_bump_port: match self.bump {
                None => None,
                Some(None) => Some(PortBump(default_bump)),
                Some(Some(n)) => Some(PortBump(n)),
            },
            retry: Some(Retry(self.retry)),
            quiet: self.quiet,
        }
    }

    /// How the command is run; an error where there is none.
    pub fn run(&self, default_bump: u32) -> (r: Result<RunPlan, String>)
        ensures
            if self.run@.len() == 0 {
                r matches Err(e) && e@ == "No command provided"@
            } else {
                &&& r is Ok
                &&& r->Ok_0.opts@ == self.options(default_bump)
                &&& if self.quiet {
                    r->Ok_0.check is None
                } else {
                    r->Ok_0.check matches Some(check) && check@ == batch::effective_check(
                        text::opt_view(self.output),
                        text::opt_view(self.http),
                        self.port,
                        text::opt_view(self.cmd),
                        self.delay,
                    )
                }
            },
    {
        if self.run.len() == 0 {
            return Err("No command provided".to_owned());
        }
        let check = if self.quiet {
            None
        } else {
            let url = match &self.http {
                Some(url) => Some(url),
                None => None,
            };
            Some(choose_check(&self.output, url, self.port, &self.cmd, self.delay))
        };
        Ok(RunPlan { opts: self.start_options(default_bump), check })
    }

    /// Whether the program ends with an error once the supervisor has
    /// answered: where the daemon ended, or could not be run.
    pub fn fails(result: &Result<RunResult, String>) -> (r: bool)
        ensures
            r == (match result {
                Ok(run) => run.exit_code is Some,
                Err(_) => true,
            }),
    {
        match result {
            Ok(run) => run.exit_code.is_some(),
            Err(_) => true,
        }
    }
}

// ---------------------------------------------------------------------------
// Laws
// ---------------------------------------------------------------------------

/// A command is refused exactly if nothing at all says which daemons it is
/// about; running ones win over configured ones, and those over named ones.
pub proof fn law_selection_is_refused_only_if_empty(
    named: nat,
    group: bool,
    all: bool,
    local: bool,
    global: bool,
)
    ensures
        selected(named, group, all, local, global) is None <==> named == 0 && !group && !all
            && !local && !global,
        all ==> selected(named, group, all, local, global) == Some(Selection::Running),
        !all && (local || global) ==> selected(named, group, all, local, global) == Some(
            Selection::Configured { global },
        ),
{
}

/// A restart always forces, and says nothing that the arguments do not say.
pub proof fn law_restart_forces(r: Restart)
    ensures
        r.options().force,
        r.options().shell_pid is None,
        r.options().expected_port is None,
        r.options().auto_bump_port is None,
        r.options().retry is None,
{
}

/// Named daemons are meant exactly where neither all nor the configured ones
/// are, and some are named.
pub proof fn law_names_count_where_nothing_wider_is_said(
    named: nat,
    group: bool,
    all: bool,
    local: bool,
    global: bool,
)
    ensures
        selected(named, group, all, local, global) == Some(Selection::Named) <==> !all && !local
            && !global && (named > 0 || group),
        selected(named, group, all, local, global) == Some(Selection::Running) <==> all,
        selected(named, group, all, local, global) == Some(Selection::Configured { global: true })
            <==> !all && global,
        selected(named, group, all, local, global) == Some(Selection::Configured { global: false })
            <==> !all && !global && local,
{
}

/// What a command is about follows from its own arguments.
pub proof fn law_commands_are_about_what_they_name(r: Restart, s: Stop)
    ensures
        r.selection() is None <==> r.id@.len() == 0 && r.group is None && !r.all && !r.local
            && !r.global,
        r.selection() == Some(Selection::Running) <==> r.all,
        r.selection() == Some(Selection::Named) <==> !r.all && !r.local && !r.global && (r.id@.len()
            > 0 || r.group is Some),
        r.selection() == Some(Selection::Configured { global: true }) <==> !r.all && r.global,
        r.selection() == Some(Selection::Configured { global: false }) <==> !r.all && !r.global
            && r.local,
        s.selection() is None <==> s.id@.len() == 0 && s.group is None && !s.all && !s.local
            && !s.global,
        s.selection() == Some(Selection::Running) <==> s.all,
        s.selection() == Some(Selection::Named) <==> !s.all && !s.local && !s.global && (s.id@.len()
            > 0 || s.group is Some),
        s.selection() == Some(Selection::Configured { global: true }) <==> !s.all && s.global,
        s.selection() == Some(Selection::Configured { global: false }) <==> !s.all && !s.global
            && s.local,
{
}

/// A restart hands on every argument on readiness and output.
pub proof fn law_restart_hands_on_its_arguments(r: Restart)
    ensures
        r.options().delay == r.delay,
        r.output is Some ==> r.options().output == Some(r.output->0@),
        r.output is None ==> r.options().output is None,
        r.http is Some ==> r.options().http == Some(r.http->0@),
        r.http is None ==> r.options().http is None,
        r.options().port == r.port,
        r.cmd is Some ==> r.options().cmd == Some(r.cmd->0@),
        r.cmd is None ==> r.options().cmd is None,
        r.options().quiet == r.quiet,
{
}

/// A one-off run hands on every argument. Ports count where some are given, and
/// a bump without a number is that of the settings.
pub proof fn law_run_hands_on_its_arguments(r: Run, default_bump: u32)
    ensures
        ({
            let o = r.options(default_bump);
            &&& o.force == r.force
            &&& o.shell_pid is None
            &&& o.delay == r.delay
            &&& r.output is Some ==> o.output == Some(r.output->0@)
            &&& r.output is None ==> o.output is None
            &&& r.http is Some ==> o.http == Some(r.http->0@)
            &&& r.http is None ==> o.http is None
            &&& o.port == r.port
            &&& r.cmd is Some ==> o.cmd == Some(r.cmd->0@)
            &&& r.cmd is None ==> o.cmd is None
            &&& r.expected_port@.len() > 0 ==> o.expected_port == Some(r.expected_port@)
            &&& r.expected_port@.len() == 0 ==> o.expected_port is None
            &&& r.bump is None ==> o.auto_bump_port is None
            &&& r.bump == Some(None::<u32>) ==> o.auto_bump_port == Some(PortBump(default_bump))
            &&& r.bump is Some && r.bump->0 is Some ==> o.auto_bump_port == Some(
                PortBump(r.bump->0->0),
            )
            &&& o.retry == Some(Retry(r.retry))
            &&& o.quiet == r.quiet
        }),
{
}

} // verus!
