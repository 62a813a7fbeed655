use pitchfork::app::{App, PendingAction, Surroundings, View};
use pitchfork::batch::ReadyCheckType;
use pitchfork::cli::{Event, Restart, Run, Selection, Step, Stop};
use pitchfork::config::{PitchforkToml, PitchforkTomlDaemon, PortBump, Retry};
use pitchfork::configure::SaveInput;
use pitchfork::daemon::{Daemon, DaemonId, DaemonListEntry, DaemonStatus};
use pitchfork::logger::{
    apply_settings, compose, compose_file_text, thread_id, usize_to_level_filter, Level,
    LevelFilter, Logger, Record, Styles, PROGRAM_NAME,
};
use pitchfork::network::Listener;
use pitchfork::start::{RunResult, StartResult, Started};
use pitchfork::stop::StopResult;
use pitchfork::tui::{Action, Command, Report, TaskResult, TuiLoop};
use pitchfork::web::{
    available_row, get_stats, index, stats_partial, table_rows, NameTexts, StateFile, Stats,
    EMPTY_ROW,
};
use std::collections::HashMap;

fn id(name: &str) -> DaemonId {
    DaemonId::new("p", name)
}

fn at(now: u128) -> Surroundings {
    Surroundings {
        measured: HashMap::new(),
        stat_history: 1,
        now,
        message_duration: 1_000_000,
        log: None,
    }
}

fn start_result(started: usize, any_failed: bool) -> StartResult {
    StartResult {
        started: (0..started)
            .map(|_| Started { id: id("x"), start_time: 0, ports: Vec::new() })
            .collect(),
        any_failed,
        pending_job_updates: Vec::new(),
    }
}

fn busy() -> TuiLoop {
    let mut l = TuiLoop::new(App::new(), 0);
    l.in_flight = true;
    l.app.start_loading("...".to_string());
    l.app.multi_select.insert(id("marked"));
    l
}

#[test]
fn results_are_told_to_the_user() {
    let e = || "oops".to_string();
    let cases: Vec<(TaskResult, &str, bool)> = vec![
        (TaskResult::Start { id: id("a"), result: Ok(start_result(1, true)) }, "Failed to start p/a", false),
        (TaskResult::Start { id: id("a"), result: Ok(start_result(1, false)) }, "Started p/a", false),
        (TaskResult::Start { id: id("a"), result: Ok(start_result(0, false)) }, "No daemons were started for p/a", false),
        (TaskResult::Start { id: id("a"), result: Err(e()) }, "Failed to start p/a: oops", false),
        (TaskResult::Stop { id: id("a"), result: Ok(true) }, "Stopped p/a", false),
        (TaskResult::Stop { id: id("a"), result: Ok(false) }, "Daemon p/a was not running", false),
        (TaskResult::Stop { id: id("a"), result: Err(e()) }, "Failed to stop p/a: oops", false),
        (TaskResult::Restart { id: id("a"), result: Ok(start_result(0, false)) }, "Restarted p/a", false),
        (TaskResult::Restart { id: id("a"), result: Ok(start_result(0, true)) }, "Failed to restart p/a", false),
        (TaskResult::Restart { id: id("a"), result: Err(e()) }, "Failed to restart p/a: oops", false),
        (TaskResult::Enable { id: id("a"), result: Ok(false) }, "Enabled p/a", false),
        (TaskResult::Enable { id: id("a"), result: Err(e()) }, "Failed to enable p/a: oops", false),
        (TaskResult::Disable { id: id("a"), result: Ok(true) }, "Disabled p/a", false),
        (TaskResult::Disable { id: id("a"), result: Err(e()) }, "Failed to disable p/a: oops", false),
        (TaskResult::BatchStart { count: 12, result: Ok(start_result(10, true)) }, "Started 10/12 daemons (some failed)", true),
        (TaskResult::BatchStart { count: 2, result: Ok(start_result(2, false)) }, "Started 2 daemons", true),
        (TaskResult::BatchStart { count: 2, result: Err(e()) }, "Failed to start daemons: oops", true),
        (TaskResult::BatchStop { count: 3, result: Ok(StopResult { any_failed: true }) }, "Stopped 3 daemons (some failed)", true),
        (TaskResult::BatchStop { count: 3, result: Ok(StopResult { any_failed: false }) }, "Stopped 3 daemons", true),
        (TaskResult::BatchStop { count: 3, result: Err(e()) }, "Failed to stop daemons: oops", true),
        (TaskResult::BatchRestart { count: 4, result: Ok(start_result(1, true)) }, "Restarted 1/4 daemons (some failed)", true),
        (TaskResult::BatchRestart { count: 4, result: Ok(start_result(4, false)) }, "Restarted 4 daemons", true),
        (TaskResult::BatchRestart { count: 4, result: Err(e()) }, "Failed to restart daemons: oops", true),
        (TaskResult::BatchEnable { count: 5 }, "Enabled 5 daemons", true),
        (TaskResult::BatchDisable { count: 6 }, "Disabled 6 daemons", true),
    ];
    for (result, message, batch) in cases {
        let mut l = busy();
        assert!(l.handle_result(result, &at(9)));
        assert_eq!(l.app.message.as_deref(), Some(message));
        assert_eq!(l.app.message_time, Some(9));
        assert!(!l.in_flight);
        assert!(l.app.loading_text.is_none());
        assert_eq!(l.app.has_selection(), !batch, "{message}");
        assert_eq!(l.last_refresh, 0);
    }
}

fn entry(name: &str) -> DaemonListEntry {
    DaemonListEntry {
        daemon: Daemon {
            id: id(name),
            pid: None,
            status: DaemonStatus::Running,
            cmd: None,
            dir: None,
            env: None,
            ready_http: None,
            resolved_port: Vec::new(),
        },
        is_disabled: false,
        is_available: false,
    }
}

#[test]
fn only_a_refresh_that_was_asked_for_ends_an_operation() {
    let mut l = busy();
    let background =
        TaskResult::Refresh { result: Ok(vec![entry("a")]), clears_in_flight: false };
    assert!(!l.handle_result(background, &at(7)));
    assert!(l.in_flight);
    assert!(l.app.loading_text.is_some());
    assert_eq!(l.app.daemons.len(), 1);
    assert_eq!(l.last_refresh, 7);
    let asked = TaskResult::Refresh { result: Err("down".to_string()), clears_in_flight: true };
    assert!(!l.handle_result(asked, &at(8)));
    assert!(!l.in_flight);
    assert!(l.app.loading_text.is_none());
    assert_eq!(l.app.message.as_deref(), Some("Refresh failed: down"));
    assert_eq!(l.last_refresh, 8);
    let network =
        vec![Listener { name: "n".to_string(), pid: 3, port: 80 }];
    assert!(!l.handle_result(TaskResult::RefreshNetwork(network), &at(9)));
    assert_eq!(l.app.network_selected_pid, Some(3));
    assert_eq!(l.last_refresh, 8);
}

#[test]
fn the_list_is_refreshed_now_and_then() {
    let mut l = TuiLoop::new(App::new(), 100);
    assert_eq!(l.tick(109, 10), None);
    assert_eq!(l.tick(50, 10), None);
    assert_eq!(l.tick(110, 10), Some(false));
    assert_eq!(l.last_refresh, 110);
    l.app.view = View::Network;
    assert_eq!(l.tick(120, 10), Some(true));
    l.in_flight = true;
    assert_eq!(l.tick(1000, 10), None);
    assert_eq!(l.last_refresh, 120);
}

fn act(action: Action) -> (TuiLoop, Command) {
    let mut l = TuiLoop::new(App::new(), 0);
    let c = l.handle_action(action);
    (l, c)
}

#[test]
fn operations_are_begun() {
    let (l, c) = act(Action::Start(id("a")));
    assert!(l.in_flight);
    assert_eq!(l.app.loading_text.as_deref(), Some("Starting p/a..."));
    match c {
        Command::StartDaemons { ids, opts, report } => {
            assert_eq!(ids.len(), 1);
            assert!(opts.quiet && !opts.force);
            assert_eq!(report, Report::Start);
        }
        other => panic!("{other:?}"),
    }
    let (l, c) = act(Action::BatchStart(vec![id("a"), id("b")]));
    assert_eq!(l.app.loading_text.as_deref(), Some("Starting 2 daemons..."));
    assert!(matches!(c, Command::StartDaemons { report: Report::BatchStart, .. }));
    let (l, c) = act(Action::Enable(id("a")));
    assert_eq!(l.app.loading_text.as_deref(), Some("Enabling p/a..."));
    assert!(matches!(c, Command::Enable(i) if i.name == "a"));
    let (l, c) = act(Action::BatchEnable(vec![id("a")]));
    assert_eq!(l.app.loading_text.as_deref(), Some("Enabling 1 daemons..."));
    assert!(matches!(c, Command::EnableAll(ids) if ids.len() == 1));
    let (l, c) = act(Action::Refresh);
    assert!(l.in_flight);
    assert_eq!(l.app.loading_text.as_deref(), Some("Refreshing..."));
    assert!(matches!(c, Command::Refresh));
}

#[test]
fn local_actions_begin_no_operation() {
    assert!(matches!(act(Action::Quit).1, Command::Quit));
    assert!(matches!(act(Action::Other).1, Command::Nothing));
    assert!(matches!(act(Action::OpenEditorNew).1, Command::ChooseFile));
    assert!(matches!(act(Action::OpenEditorEdit(id("a"))).1, Command::LoadEditor(_)));
    let (l, c) = act(Action::SaveConfig);
    assert!(matches!(c, Command::Save));
    assert!(!l.in_flight);
    assert_eq!(l.app.loading_text.as_deref(), Some("Saving..."));
    let (l, c) = act(Action::DeleteDaemon { id: "a".to_string(), config_path: "/f".to_string() });
    assert!(matches!(c, Command::Nothing));
    assert_eq!(l.app.view, View::Confirm);
    let (l, c) = act(Action::ConfirmPending);
    assert!(matches!(c, Command::Nothing));
    assert!(!l.in_flight);
}

fn confirm(pending: PendingAction) -> (TuiLoop, Command) {
    let mut l = TuiLoop::new(App::new(), 0);
    l.app.confirm_action(pending);
    let c = l.handle_action(Action::ConfirmPending);
    assert!(l.app.pending_action.is_none());
    assert_eq!(l.app.view, View::Dashboard);
    (l, c)
}

#[test]
fn confirmed_actions_are_carried_out() {
    let both = || vec![id("a"), id("b")];
    let (l, c) = confirm(PendingAction::Stop(id("a")));
    assert!(l.in_flight && matches!(c, Command::Stop(_)));
    assert_eq!(l.app.loading_text.as_deref(), Some("Stopping p/a..."));
    let (l, c) = confirm(PendingAction::Restart(id("a")));
    assert_eq!(l.app.loading_text.as_deref(), Some("Restarting p/a..."));
    assert!(
        matches!(c, Command::StartDaemons { opts, report: Report::Restart, .. } if opts.force && opts.quiet)
    );
    let (l, c) = confirm(PendingAction::Disable(id("a")));
    assert!(l.in_flight && matches!(c, Command::Disable(_)));
    let (l, c) = confirm(PendingAction::BatchStop(both()));
    assert_eq!(l.app.loading_text.as_deref(), Some("Stopping 2 daemons..."));
    assert!(matches!(c, Command::StopDaemons(_)));
    let (l, c) = confirm(PendingAction::BatchRestart(both()));
    assert_eq!(l.app.loading_text.as_deref(), Some("Restarting 2 daemons..."));
    assert!(
        matches!(c, Command::StartDaemons { opts, report: Report::BatchRestart, .. } if opts.force)
    );
    let (l, c) = confirm(PendingAction::BatchDisable(both()));
    assert_eq!(l.app.loading_text.as_deref(), Some("Disabling 2 daemons..."));
    assert!(matches!(c, Command::DisableAll(_)));
    let (l, c) = confirm(PendingAction::DeleteDaemon {
        id: "a".to_string(),
        config_path: "/f".to_string(),
    });
    assert!(!l.in_flight);
    assert_eq!(l.app.loading_text.as_deref(), Some("Deleting a..."));
    assert!(matches!(c, Command::Delete { config_path, .. } if config_path == "/f"));
    let mut l = TuiLoop::new(App::new(), 0);
    l.app.open_editor_create("/f".to_string());
    l.app.confirm_action(PendingAction::DiscardEditorChanges);
    assert!(matches!(l.handle_action(Action::ConfirmPending), Command::Nothing));
    assert!(l.app.editor_state.is_none());
}

#[test]
fn one_operation_at_a_time() {
    for action in [
        Action::Start(id("a")),
        Action::Enable(id("a")),
        Action::BatchStart(vec![id("a")]),
        Action::BatchEnable(vec![id("a")]),
        Action::Refresh,
        Action::ConfirmPending,
    ] {
        let mut l = busy();
        l.app.confirm_action(PendingAction::Stop(id("b")));
        assert!(matches!(l.handle_action(action), Command::Nothing));
        assert!(l.in_flight);
        assert!(l.app.pending_action.is_some());
        assert_eq!(l.app.loading_text.as_deref(), Some("..."));
    }
    let mut l = busy();
    assert!(matches!(l.handle_action(Action::SaveConfig), Command::Save));
    assert!(l.in_flight);
}

fn save_input() -> SaveInput {
    SaveInput {
        daemon_id: Ok(id("api")),
        original_id: Ok(id("api")),
        config: Ok(PitchforkToml::new()),
        known: Vec::new(),
    }
}

#[test]
fn saving_closes_the_editor() {
    let mut l = TuiLoop::new(App::new(), 0);
    assert!(l.prepare_save(save_input(), 1).is_none());
    assert_eq!(l.app.message.as_deref(), Some("Save failed: No editor state"));
    l.app.open_editor_create("/f".to_string());
    l.handle_action(Action::SaveConfig);
    assert!(l.prepare_save(save_input(), 1).is_none());
    assert!(l.app.loading_text.is_none());
    assert!(l.app.editor_state.is_some());
    let e = l.app.editor_state.as_mut().unwrap();
    e.daemon_id = "api".to_string();
    e.fields[0].set_text("run".to_string());
    l.handle_action(Action::SaveConfig);
    let content = l.prepare_save(save_input(), 2).unwrap();
    assert!(content.contains(&id("api")));
    assert!(!l.finish_save(Err("full".to_string()), 3));
    assert_eq!(l.app.message.as_deref(), Some("Save failed: full"));
    assert!(l.app.editor_state.is_some());
    assert!(l.finish_save(Ok(()), 4));
    assert_eq!(l.app.message.as_deref(), Some("Saved daemon 'api'"));
    assert!(l.app.editor_state.is_none() && l.app.loading_text.is_none());
    assert!(!l.finish_save(Ok(()), 5));
}

#[test]
fn deleting_is_told() {
    let mut l = TuiLoop::new(App::new(), 0);
    l.app.open_editor_create("/f".to_string());
    l.finish_delete("a", Err("no".to_string()), 1);
    assert_eq!(l.app.message.as_deref(), Some("Delete failed: no"));
    l.finish_delete("a", Ok(false), 1);
    assert_eq!(l.app.message.as_deref(), Some("Daemon 'a' not found in config"));
    assert!(l.app.editor_state.is_some());
    l.finish_delete("a", Ok(true), 1);
    assert_eq!(l.app.message.as_deref(), Some("Deleted a"));
    assert!(l.app.editor_state.is_none());
}

fn restart() -> Restart {
    Restart {
        id: Vec::new(),
        group: None,
        all: false,
        local: false,
        global: false,
        delay: Some(5),
        output: Some("o".to_string()),
        http: Some("h".to_string()),
        port: Some(1),
        cmd: Some("c".to_string()),
        quiet: true,
    }
}

const NOTHING: &str =
    "At least one daemon ID, --group, or one of --all / --local / --global must be provided";

#[test]
fn restart_is_a_forced_start() {
    let mut r = restart();
    assert_eq!(r.run(Event::Given).unwrap_err(), NOTHING);
    r.id = vec!["api".to_string()];
    assert!(matches!(r.run(Event::Given), Ok(Step::Select(Selection::Named))));
    r.local = true;
    assert!(matches!(
        r.run(Event::Given),
        Ok(Step::Select(Selection::Configured { global: false }))
    ));
    r.global = true;
    assert!(matches!(
        r.run(Event::Given),
        Ok(Step::Select(Selection::Configured { global: true }))
    ));
    r.all = true;
    assert!(matches!(r.run(Event::Given), Ok(Step::Select(Selection::Running))));
    assert!(matches!(r.run(Event::Selected(Vec::new())), Ok(Step::Warn("No daemons to restart"))));
    match r.run(Event::Selected(vec![id("a")])) {
        Ok(Step::Start { ids, opts }) => {
            assert_eq!(ids.len(), 1);
            assert!(opts.force && opts.quiet);
            assert_eq!((opts.delay, opts.port), (Some(5), Some(1)));
            assert_eq!(opts.output.as_deref(), Some("o"));
            assert_eq!(opts.http.as_deref(), Some("h"));
            assert_eq!(opts.cmd.as_deref(), Some("c"));
            assert!(opts.retry.is_none() && opts.shell_pid.is_none());
        }
        other => panic!("{other:?}"),
    }
    assert!(matches!(r.run(Event::Finished { any_failed: true }), Ok(Step::Exit(1))));
    assert!(matches!(r.run(Event::Finished { any_failed: false }), Ok(Step::Succeed)));
}

#[test]
fn stop_selects_like_restart() {
    let mut s = Stop { id: Vec::new(), group: None, all: false, local: false, global: false };
    assert_eq!(s.run(Event::Given).unwrap_err(), NOTHING);
    s.group = Some("g".to_string());
    assert!(matches!(s.run(Event::Given), Ok(Step::Select(Selection::Named))));
    s.global = true;
    assert!(matches!(
        s.run(Event::Given),
        Ok(Step::Select(Selection::Configured { global: true }))
    ));
    assert!(matches!(s.run(Event::Selected(Vec::new())), Ok(Step::Warn("No daemons to stop"))));
    assert!(matches!(s.run(Event::Selected(vec![id("a")])), Ok(Step::Stop { ids }) if ids.len() == 1));
    assert!(matches!(s.run(Event::Finished { any_failed: true }), Ok(Step::Exit(1))));
    assert!(matches!(s.run(Event::Finished { any_failed: false }), Ok(Step::Succeed)));
}

fn one_off() -> Run {
    Run {
        id: "api".to_string(),
        run: vec!["npm".to_string(), "start".to_string()],
        force: true,
        retry: 3,
        delay: None,
        output: None,
        http: None,
        port: None,
        expected_port: Vec::new(),
        bump: None,
        cmd: None,
        quiet: false,
    }
}

#[test]
fn one_off_daemons_are_planned() {
    let mut r = one_off();
    let plan = r.run(10).unwrap();
    assert!(plan.opts.force);
    assert_eq!(plan.opts.retry, Some(Retry(3)));
    assert!(plan.opts.expected_port.is_none() && plan.opts.auto_bump_port.is_none());
    assert!(matches!(plan.check, Some(ReadyCheckType::Default)));
    r.bump = Some(None);
    r.expected_port = vec![80, 81];
    r.delay = Some(2);
    let plan = r.run(10).unwrap();
    assert_eq!(plan.opts.auto_bump_port, Some(PortBump(10)));
    assert_eq!(plan.opts.expected_port, Some(vec![80, 81]));
    assert!(matches!(plan.check, Some(ReadyCheckType::Delay(2))));
    r.bump = Some(Some(4));
    r.http = Some("http://x".to_string());
    let plan = r.run(10).unwrap();
    assert_eq!(plan.opts.auto_bump_port, Some(PortBump(4)));
    assert!(matches!(plan.check, Some(ReadyCheckType::Http(u)) if u == "http://x"));
    r.quiet = true;
    assert!(r.run(10).unwrap().check.is_none());
    r.run = Vec::new();
    assert_eq!(r.run(10).unwrap_err(), "No command provided");
}

#[test]
fn a_daemon_that_ended_fails_the_command() {
    let result = |exit_code| {
        Ok(RunResult {
            started: exit_code == None,
            exit_code,
            start_time: 0,
            resolved_ports: Vec::new(),
            error_message: None,
        })
    };
    assert!(!Run::fails(&result(None)));
    assert!(Run::fails(&result(Some(0))));
    assert!(Run::fails(&Err("x".to_string())));
}

fn styles() -> Styles {
    Styles {
        error: format!("\u{1b}[31m{}\u{1b}[0m", Level::Error.name()),
        warn: Level::Warn.name().to_string(),
        info: Level::Info.name().to_string(),
        debug: Level::Debug.name().to_string(),
        trace: Level::Trace.name().to_string(),
        name_error: "!pitchfork".to_string(),
        name_warn: "?pitchfork".to_string(),
        name_other: PROGRAM_NAME.to_string(),
    }
}

fn record(level: Level) -> Record {
    Record {
        level,
        args: "text".to_string(),
        file: Some("src/main.rs".to_string()),
        line: Some(12),
    }
}

fn logger(term: LevelFilter, file: LevelFilter) -> Logger {
    Logger { term_level: term, file_level: file, has_file: true }
}

#[test]
fn levels_are_stored_and_read_back() {
    for f in [
        LevelFilter::Off, LevelFilter::Error, LevelFilter::Warn, LevelFilter::Info,
        LevelFilter::Debug, LevelFilter::Trace,
    ] {
        assert_eq!(usize_to_level_filter(f.number()), f);
    }
    assert_eq!(usize_to_level_filter(6), LevelFilter::Info);
    assert_eq!(usize_to_level_filter(usize::MAX), LevelFilter::Info);
}

#[test]
fn settings_name_the_levels() {
    let mut l = logger(LevelFilter::Off, LevelFilter::Off);
    assert_eq!(apply_settings(&mut l, "debug", "TRACE"), LevelFilter::Trace);
    assert_eq!((l.term_level, l.file_level), (LevelFilter::Debug, LevelFilter::Trace));
    assert_eq!(apply_settings(&mut l, "WaRn", ""), LevelFilter::Warn);
    assert_eq!((l.term_level, l.file_level), (LevelFilter::Warn, LevelFilter::Warn));
    assert_eq!(apply_settings(&mut l, "loud", "off"), LevelFilter::Info);
    assert_eq!((l.term_level, l.file_level), (LevelFilter::Info, LevelFilter::Off));
    apply_settings(&mut l, " info", "error");
    assert_eq!((l.term_level, l.file_level), (LevelFilter::Info, LevelFilter::Error));
    assert!(l.has_file);
}

#[test]
fn a_record_is_enabled_where_it_is_logged() {
    let l = logger(LevelFilter::Warn, LevelFilter::Debug);
    assert!(l.enabled(Level::Debug));
    assert!(!l.enabled(Level::Trace));
    assert_eq!(l.max_level(), LevelFilter::Debug);
    assert!(!logger(LevelFilter::Off, LevelFilter::Off).enabled(Level::Error));
}

#[test]
fn records_are_rendered_by_level() {
    let s = styles();
    let l = logger(LevelFilter::Info, LevelFilter::Info);
    let show = |level, filter| l.render(&record(level), filter, &s, "<origin>");
    assert_eq!(show(Level::Info, LevelFilter::Info), "pitchfork text");
    assert_eq!(show(Level::Warn, LevelFilter::Info), "?pitchfork WARN  text");
    assert_eq!(show(Level::Error, LevelFilter::Warn), "!pitchfork \u{1b}[31mERROR\u{1b}[0m text");
    assert_eq!(show(Level::Debug, LevelFilter::Debug), "DEBUG text");
    assert_eq!(show(Level::Info, LevelFilter::Debug), "INFO  text");
    assert_eq!(show(Level::Trace, LevelFilter::Trace), "TRACE <origin> text");
    assert_eq!(show(Level::Info, LevelFilter::Off), "");
    let mut noise = record(Level::Trace);
    noise.file = Some("/home/.cargo/notify-6.0/src/lib.rs".to_string());
    assert_eq!(l.render(&noise, LevelFilter::Trace, &s, "o"), "");
    noise.level = Level::Debug;
    assert_eq!(l.render(&noise, LevelFilter::Trace, &s, "o"), "DEBUG o text");
    assert_eq!(compose(&record(Level::Warn), LevelFilter::Error, "P", "L", "o"), "P L text");
    assert_eq!(compose_file_text("now", "L", "a"), "now L a");
}

#[test]
fn records_go_to_the_terminal_and_the_file() {
    let s = styles();
    let out = logger(LevelFilter::Info, LevelFilter::Error).log(&record(Level::Error), &s, "NOW", "o");
    assert_eq!(out.file.as_deref(), Some("NOW ERROR text"));
    assert_eq!(out.terminal.as_deref(), Some("!pitchfork \u{1b}[31mERROR\u{1b}[0m text"));
    let out = logger(LevelFilter::Off, LevelFilter::Trace).log(&record(Level::Warn), &s, "NOW", "o");
    assert_eq!(out.file.as_deref(), Some("NOW WARN  text"));
    assert!(out.terminal.is_none());
    let mut l = logger(LevelFilter::Info, LevelFilter::Trace);
    l.has_file = false;
    let out = l.log(&record(Level::Debug), &s, "NOW", "o");
    assert!(out.file.is_none() && out.terminal.is_none());
    let mut noise = record(Level::Trace);
    noise.file = Some("/notify-debouncer-full-1/x.rs".to_string());
    let out = logger(LevelFilter::Trace, LevelFilter::Off).log(&noise, &s, "NOW", "o");
    assert!(out.terminal.is_none());
}

#[test]
fn origins_name_thread_file_and_line() {
    assert_eq!(thread_id("ThreadId(7)"), "7");
    assert_eq!(thread_id("ThreadId(12)"), "12");
    assert_eq!(record(Level::Trace).origin("7"), " 7 [src/main.rs:12]");
    assert_eq!(record(Level::Trace).origin("123"), "123 [src/main.rs:12]");
    let mut r = record(Level::Trace);
    r.file = None;
    r.line = None;
    assert_eq!(r.origin(""), "   [<unknown>:0]");
    assert_eq!(format!("{:>2}", ""), "  ");
}

fn known(name: &str, status: DaemonStatus) -> Daemon {
    let mut d = entry(name).daemon;
    d.status = status;
    d
}

fn state() -> StateFile {
    StateFile {
        daemons: vec![
            known("a", DaemonStatus::Running),
            known("pitchfork", DaemonStatus::Running),
            known("b", DaemonStatus::Stopped),
            known("c", DaemonStatus::Errored(3)),
            known("d", DaemonStatus::Failed("x".to_string())),
        ],
        disabled: vec![id("b")],
        supervisor: id("pitchfork"),
    }
}

fn project(names: &[&str]) -> PitchforkToml {
    let mut pt = PitchforkToml::new();
    for n in names {
        pt.insert(&id(n), PitchforkTomlDaemon::default());
    }
    pt
}

#[test]
fn the_supervisor_is_not_counted() {
    let s = get_stats(&state(), &project(&["a", "new"]));
    assert_eq!(s, Stats { total: 5, running: 1, stopped: 1, errored: 1 });
    let s = get_stats(&state(), &project(&["pitchfork"]));
    assert_eq!(s.total, 5);
}

#[test]
fn rows_are_for_the_users_daemons() {
    let rows = state().known_rows();
    let places: Vec<(usize, bool)> = rows.iter().map(|r| (r.place, r.is_disabled)).collect();
    assert_eq!(places, vec![(0, false), (2, true), (3, false), (4, false)]);
    let available = state().available(&project(&["new", "a", "pitchfork"]));
    let names: Vec<String> = available.iter().map(|i| i.name.clone()).collect();
    assert_eq!(names, vec!["new"]);
}

fn names_of(text: &str) -> NameTexts {
    NameTexts {
        safe_id: format!("S{text}"),
        url_id: format!("U{text}"),
        display_html: format!("<b>{text}</b>"),
    }
}

#[test]
fn cards_hold_the_counts() {
    let config = Ok(project(&["a", "new", "newer"]));
    assert_eq!(
        stats_partial(&state(), &config),
        r#"<div class="stat-card">
            <div class="stat-value">6</div>
            <div class="stat-label">Total</div>
        </div>
        <div class="stat-card running">
            <div class="stat-value">1</div>
            <div class="stat-label">Running</div>
        </div>
        <div class="stat-card stopped">
            <div class="stat-value">1</div>
            <div class="stat-label">Stopped</div>
        </div>
        <div class="stat-card errored">
            <div class="stat-value">1</div>
            <div class="stat-label">Errored</div>
        </div>"#
    );
    assert_eq!(
        stats_partial(&state(), &Err("bad".to_string())),
        r#"<div class="error">Failed to load configuration: bad</div>"#
    );
}

#[test]
fn the_page_holds_counts_and_rows() {
    let config = Ok(project(&["a", "new", "newer"]));
    let known: Vec<String> =
        state().known_rows().iter().map(|row| format!("<tr>KNOWN{}</tr>", row.place)).collect();
    let page = index("/ps", &state(), &config, &known, &vec![names_of("1"), names_of("2")]);
    assert!(page.starts_with("<!DOCTYPE html>\n<html lang=\"en\">"));
    assert!(page.ends_with("</body>\n</html>"));
    assert!(page.contains(r#"<link rel="icon" type="image/x-icon" href="/ps/static/favicon.ico">"#));
    assert!(page.contains(r#"hx-get="/ps/_stats""#));
    assert!(page.contains(
        "<div class=\"stat-value\">6</div>\n                <div class=\"stat-label\">Total</div>"
    ));
    assert!(page.contains(r#"hx-get="/ps/daemons/_list""#));
    assert!(page.contains(
        "                <tr>KNOWN0</tr><tr>KNOWN2</tr><tr>KNOWN3</tr><tr>KNOWN4</tr><tr id=\"daemon-S1\""
    ));
    assert!(page.contains("<tr id=\"daemon-S2\""));
    assert!(page.contains("</tr>\n            </tbody>"));
    assert!(page.contains(r"str.replace(/\\s+/g, ' ').trim();"));
    assert!(page.contains("function(evt) {\n            lucide.createIcons();\n        });"));
}

#[test]
fn an_empty_page_says_so() {
    let empty = StateFile { daemons: Vec::new(), disabled: Vec::new(), supervisor: id("pitchfork") };
    let page = index("", &empty, &Ok(project(&[])), &Vec::new(), &Vec::new());
    assert!(page.contains(EMPTY_ROW));
    assert!(page.contains(r#"<a href="/" class="active">Dashboard</a>"#));
    assert_eq!(
        index("", &empty, &Err("bad".to_string()), &Vec::new(), &Vec::new()),
        r#"<h1>Error</h1><p class="error">Failed to load configuration: bad</p>"#
    );
}

#[test]
fn tables_are_never_bare() {
    assert_eq!(table_rows(&Vec::new()), EMPTY_ROW);
    assert_eq!(table_rows(&vec![String::new()]), EMPTY_ROW);
    assert_eq!(table_rows(&vec!["a".to_string(), "b".to_string()]), "ab");
    let row = available_row(
        "/ps",
        &NameTexts {
            safe_id: "S".to_string(),
            url_id: "U".to_string(),
            display_html: "<b>D</b>".to_string(),
        },
    );
    assert!(row.starts_with(
        r#"<tr id="daemon-S" class="clickable-row" onclick="window.location.href='/ps/daemons/U'">"#
    ));
    assert!(row.contains(
        r#"<td><a href="/ps/daemons/U" class="daemon-name" onclick="event.stopPropagation()"><b>D</b></a></td>"#
    ));
    assert!(row.contains(
        "<button hx-post=\"/ps/daemons/U/start\" hx-target=\"#daemon-S\" hx-swap=\"outerHTML\""
    ));
    assert!(row.ends_with("</tr>"));
}

#[test]
fn rows_add_up_to_the_total() {
    for names in [&["a", "new", "newer"][..], &[][..], &["new"][..], &["a", "b", "c", "d"][..]] {
        let pt = project(names);
        let s = get_stats(&state(), &pt);
        assert_eq!(state().known_rows().len() + state().available(&pt).len(), s.total);
        assert!(s.running + s.stopped + s.errored <= s.total);
    }
}
