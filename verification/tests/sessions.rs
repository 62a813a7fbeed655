use pitchfork::batch::StartOptions;
use pitchfork::client::IpcClient;
use pitchfork::config::{PitchforkToml, PitchforkTomlDaemon, ReadyHttp};
use pitchfork::daemon::{Daemon, DaemonId, DaemonStatus};
use pitchfork::jobs::{ports_text, update_job_with_result, JobUpdate};
use pitchfork::paths::Locations;
use pitchfork::start::{
    enabled_among, RunResult, Skip, SpawnTaskResult, StartAction, StartSession, TaskEnd,
};
use pitchfork::stop::StopEnd;

fn id(name: &str) -> DaemonId {
    DaemonId::new("p", name)
}

fn ids(names: &[&str]) -> Vec<DaemonId> {
    names.iter().map(|n| id(n)).collect()
}

fn names(ids: &[DaemonId]) -> Vec<String> {
    ids.iter().map(|i| i.name.clone()).collect()
}

fn daemon(name: &str, status: DaemonStatus) -> Daemon {
    Daemon {
        id: id(name),
        pid: None,
        status,
        cmd: Some(vec!["run".to_string(), name.to_string()]),
        dir: Some("/d".to_string()),
        env: None,
        ready_http: Some(ReadyHttp { url: "http://old".to_string(), status: vec![201] }),
        resolved_port: vec![4000],
    }
}

fn project(names: &[&str]) -> PitchforkToml {
    let mut pt = PitchforkToml::new();
    for n in names {
        let mut c = PitchforkTomlDaemon::default();
        c.run = format!("run {n}");
        pt.insert(&id(n), c);
    }
    pt.insert(&DaemonId::new("global", "tool"), PitchforkTomlDaemon::default());
    pt
}

fn ran(name: &str, started: bool, exit_code: Option<i32>) -> TaskEnd {
    TaskEnd::Ran(SpawnTaskResult {
        id: id(name),
        run_result: Ok(RunResult {
            started,
            exit_code,
            start_time: 5,
            resolved_ports: vec![3000],
            error_message: None,
        }),
    })
}

fn broken(name: &str) -> TaskEnd {
    TaskEnd::Ran(SpawnTaskResult { id: id(name), run_result: Err("lost".to_string()) })
}

fn level(s: &mut StartSession) -> Vec<String> {
    match s.next() {
        StartAction::StartLevel(ids) => names(&ids),
        other => panic!("{other:?}"),
    }
}

fn forced() -> StartOptions {
    let mut opts = StartOptions::default();
    opts.force = true;
    opts
}

#[test]
fn configured_daemons_are_told_apart() {
    let pt = project(&["a", "b"]);
    assert_eq!(names(&IpcClient::get_all_configured_daemons(&pt)), vec!["a", "b", "tool"]);
    assert_eq!(names(&IpcClient::get_local_configured_daemons(&pt)), vec!["a", "b"]);
    assert_eq!(names(&IpcClient::get_global_configured_daemons(&pt)), vec!["tool"]);
    let client = IpcClient {
        active: vec![
            daemon("x", DaemonStatus::Running),
            daemon("b", DaemonStatus::Waiting),
            daemon("a", DaemonStatus::Stopped),
        ],
        disabled: Vec::new(),
    };
    assert_eq!(names(&client.get_running_daemons()), vec!["x", "b"]);
    assert_eq!(names(&client.get_running_configured_daemons(&pt, false)), vec!["b"]);
    assert!(client.get_running_configured_daemons(&pt, true).is_empty());
}

#[test]
fn levels_are_started_one_after_the_other() {
    let client = IpcClient { active: Vec::new(), disabled: Vec::new() };
    let mut s = client.start_daemons(
        &ids(&["web"]),
        &StartOptions::default(),
        &project(&["db", "web"]),
        Vec::new(),
    );
    assert_eq!(names(&s.config_ids), vec!["web"]);
    s.set_levels(vec![ids(&["db"]), ids(&["web"])]);
    assert_eq!(level(&mut s), vec!["db"]);
    s.end_level(vec![ran("db", true, None)]);
    assert_eq!(s.ports.get(&id("db")), Some(vec![3000]));
    assert_eq!(level(&mut s), vec!["web"]);
    s.end_level(vec![ran("web", true, None)]);
    assert!(matches!(s.next(), StartAction::Done));
    let r = s.result();
    assert!(!r.any_failed);
    let started: Vec<String> = r.started.iter().map(|s| s.id.name.clone()).collect();
    assert_eq!(started, vec!["db", "web"]);
    assert_eq!(r.started[0].ports, vec![3000]);
    assert_eq!(r.pending_job_updates.len(), 2);
}

#[test]
fn nothing_is_started_after_a_failure() {
    let client = IpcClient { active: Vec::new(), disabled: Vec::new() };
    for (end, updates) in [
        (ran("db", false, Some(1)), 1),
        (broken("db"), 1),
        (TaskEnd::TemplateError, 0),
        (TaskEnd::Panicked, 0),
    ] {
        let mut s = client.start_daemons(
            &ids(&["web", "adhoc"]),
            &StartOptions::default(),
            &project(&["db", "web"]),
            vec![daemon("adhoc", DaemonStatus::Stopped)],
        );
        s.set_levels(vec![ids(&["db"]), ids(&["web"])]);
        level(&mut s);
        s.end_level(vec![end]);
        assert!(matches!(s.next(), StartAction::Done));
        let r = s.result();
        assert!(r.any_failed);
        assert!(r.started.is_empty());
        assert_eq!(r.pending_job_updates.len(), updates);
    }
}

#[test]
fn a_daemon_that_neither_started_nor_ended_is_no_failure() {
    let client = IpcClient { active: Vec::new(), disabled: Vec::new() };
    let mut s = client.start_daemons(
        &ids(&["db"]),
        &StartOptions::default(),
        &project(&["db"]),
        Vec::new(),
    );
    s.set_levels(vec![ids(&["db"])]);
    level(&mut s);
    s.end_level(vec![ran("db", false, None)]);
    let r = s.result();
    assert!(!r.any_failed && r.started.is_empty());
}

#[test]
fn disabled_daemons_are_never_started() {
    let client = IpcClient { active: Vec::new(), disabled: ids(&["db", "off"]) };
    let mut s = client.start_daemons(
        &ids(&["off", "web"]),
        &forced(),
        &project(&["db", "web", "off"]),
        Vec::new(),
    );
    assert_eq!(names(&s.config_ids), vec!["web"]);
    s.set_levels(vec![ids(&["db"]), ids(&["off", "web"])]);
    assert_eq!(level(&mut s), vec!["web"]);
    let mut none = client.start_daemons(&ids(&["off"]), &forced(), &project(&["off"]), Vec::new());
    assert!(none.config_ids.is_empty() && none.adhoc_ids.is_empty());
    assert!(matches!(none.next(), StartAction::Done));
}

#[test]
fn running_daemons_are_restarted_only_if_forced_and_asked_for() {
    let pt = project(&["db", "web"]);
    let client = IpcClient {
        active: vec![daemon("db", DaemonStatus::Running), daemon("web", DaemonStatus::Waiting)],
        disabled: Vec::new(),
    };
    let levels = || vec![ids(&["db"]), ids(&["web"])];
    let mut s = client.start_daemons(&ids(&["web"]), &StartOptions::default(), &pt, Vec::new());
    s.set_levels(levels());
    assert!(matches!(s.next(), StartAction::Done));
    assert_eq!(s.ports.get(&id("db")), Some(vec![4000]));

    let mut s = client.start_daemons(&ids(&["web"]), &forced(), &pt, Vec::new());
    s.set_levels(levels());
    assert_eq!(level(&mut s), vec!["web"]);
    let at = Locations {
        cwd: "/".to_string(),
        global_user: "/u".to_string(),
        global_system: "/s".to_string(),
    };
    let section = PitchforkTomlDaemon::default();
    assert!(s.level_request(&id("web"), &section, &at).unwrap().force);
    assert!(!s.level_request(&id("db"), &section, &at).unwrap().force);
    let mut bad = PitchforkTomlDaemon::default();
    bad.run = "echo \"".to_string();
    assert_eq!(
        s.level_request(&id("web"), &bad, &at).unwrap_err(),
        "Failed to parse command: Failed to parse command: missing closing quote"
    );
}

#[test]
fn daemons_without_a_section_are_started_from_their_saved_command() {
    let pt = project(&["db"]);
    let client = IpcClient {
        active: vec![daemon("up", DaemonStatus::Running)],
        disabled: Vec::new(),
    };
    let known = || {
        let mut bare = daemon("bare", DaemonStatus::Stopped);
        bare.cmd = None;
        let mut adhoc = daemon("adhoc", DaemonStatus::Stopped);
        adhoc.dir = None;
        vec![adhoc, bare, daemon("up", DaemonStatus::Running), daemon("db", DaemonStatus::Stopped)]
    };
    let wanted = ids(&["adhoc", "bare", "up", "unknown"]);
    let mut s = client.start_daemons(&wanted, &StartOptions::default(), &pt, known());
    assert_eq!(names(&s.adhoc_ids), vec!["adhoc", "bare", "up", "unknown"]);
    let runs = match s.next() {
        StartAction::StartAdhoc(runs) => runs,
        other => panic!("{other:?}"),
    };
    assert_eq!(runs.len(), 1);
    assert_eq!(runs[0].cmd, vec!["run", "adhoc"]);
    assert_eq!(runs[0].dir.0, "");
    assert_eq!(runs[0].ready_http.as_ref().unwrap().status, vec![201]);
    s.end_adhoc(vec![ran("adhoc", true, None), broken("adhoc")]);
    assert!(matches!(s.next(), StartAction::Done));
    assert!(s.result().any_failed);

    let mut s = client.start_daemons(&wanted, &forced(), &pt, known());
    match s.next() {
        StartAction::StartAdhoc(runs) => {
            assert_eq!(runs.len(), 2);
            assert!(runs.iter().all(|r| r.force));
            assert_eq!(runs[1].dir.0, "/d");
        }
        other => panic!("{other:?}"),
    }
}

#[test]
fn a_one_off_daemon_is_requested() {
    let run = IpcClient::run_adhoc(
        &id("x"),
        vec!["true".to_string()],
        "/w".to_string(),
        &StartOptions::default(),
    );
    assert_eq!((run.dir.0.as_str(), run.ready_delay), ("/w", Some(3)));
    assert!(run.ready_http.is_none() && run.env.is_none());
}

#[test]
fn only_running_daemons_are_stopped() {
    let client = IpcClient {
        active: vec![
            daemon("a", DaemonStatus::Running),
            daemon("b", DaemonStatus::Stopped),
            daemon("c", DaemonStatus::Waiting),
        ],
        disabled: Vec::new(),
    };
    let mut s = client.stop_daemons(&ids(&["b", "c", "x"]));
    assert_eq!(names(&s.requested), vec!["c"]);
    s.set_levels(vec![ids(&["b"]), ids(&["c", "b"]), ids(&["a"])]);
    assert_eq!(names(&s.next()), vec!["c"]);
    s.end_level(&vec![StopEnd::Failed]);
    assert_eq!(names(&s.next()), vec!["a"]);
    s.end_level(&vec![StopEnd::Stopped]);
    assert!(s.next().is_empty());
    assert!(s.result().any_failed);
    let mut s = client.stop_daemons(&ids(&["b"]));
    assert!(s.requested.is_empty());
    assert!(s.next().is_empty());
    s.end_level(&vec![StopEnd::Stopped]);
    assert!(!s.result().any_failed);
    s.end_level(&vec![StopEnd::Panicked]);
    assert!(s.result().any_failed);
}

fn outcome(started: bool, exit_code: Option<i32>, ports: Vec<u16>, msg: Option<&str>) -> RunResult {
    RunResult {
        started,
        exit_code,
        start_time: 0,
        resolved_ports: ports,
        error_message: msg.map(str::to_string),
    }
}

fn line(has_job: bool, result: Result<RunResult, String>, time: Option<&str>) -> JobUpdate {
    let ports = match &result {
        Ok(r) => ports_text(&r.resolved_ports),
        Err(_) => String::new(),
    };
    update_job_with_result(
        has_job,
        &id("api"),
        &result,
        &time.map(str::to_string),
        "[api]",
        &format!("<{ports}>"),
    )
}

#[test]
fn lines_tell_how_a_start_went() {
    let shown = |u: JobUpdate| format!("{u:?}");
    assert_eq!(
        shown(line(true, Ok(outcome(true, None, vec![], None)), None)),
        "Done(\"{{spinner()}} [api] started\")"
    );
    assert_eq!(
        shown(line(true, Ok(outcome(true, None, vec![80], None)), Some("12:00:00"))),
        "Done(\"12:00:00 [api] started on port <80>\")"
    );
    assert_eq!(
        shown(line(true, Ok(outcome(true, Some(0), vec![80, 443], None)), Some("t"))),
        "Done(\"t [api] started on ports <80, 443>\")"
    );
    assert_eq!(
        shown(line(true, Ok(outcome(false, Some(-9), vec![], Some("boom"))), Some("t"))),
        "Failed(\"t [api] failed (exit code -9): boom\")"
    );
    assert_eq!(
        shown(line(true, Ok(outcome(false, Some(1), vec![], None)), Some("t"))),
        "Failed(\"t [api] failed (exit code 1)\")"
    );
    assert_eq!(shown(line(true, Ok(outcome(false, None, vec![], None)), None)), "Remove");
    assert_eq!(
        shown(line(true, Err("lost".to_string()), Some("t"))),
        "Failed(\"t [api] failed: lost\")"
    );
}

#[test]
fn without_a_line_only_failures_are_logged() {
    assert!(matches!(
        line(false, Ok(outcome(true, None, vec![], None)), None),
        JobUpdate::Nothing
    ));
    assert!(matches!(
        line(false, Ok(outcome(false, None, vec![], None)), None),
        JobUpdate::Nothing
    ));
    assert!(matches!(
        line(false, Ok(outcome(false, Some(2), vec![], Some("m"))), None),
        JobUpdate::ShowLogs(Some(m)) if m == "m"
    ));
    assert!(matches!(
        line(false, Err("e".to_string()), None),
        JobUpdate::LogError(m) if m == "Failed to start daemon p/api: e"
    ));
}

#[test]
fn copies_of_results_are_equal() {
    let r = outcome(true, Some(3), vec![1, 2], Some("m"));
    assert_eq!(format!("{:?}", r.clone()), format!("{r:?}"));
    let mut opts = forced();
    opts.expected_port = Some(vec![1]);
    opts.output = Some("o".to_string());
    assert_eq!(format!("{:?}", opts.clone()), format!("{opts:?}"));
}

#[test]
fn failures_are_neither_forgotten_nor_made_up() {
    let client = IpcClient { active: Vec::new(), disabled: Vec::new() };
    let begin = || {
        let mut s = client.start_daemons(
            &ids(&["a", "b"]),
            &StartOptions::default(),
            &project(&["a", "b", "c"]),
            Vec::new(),
        );
        s.set_levels(vec![ids(&["a", "b"]), ids(&["c"])]);
        level(&mut s);
        s
    };
    let mut good = begin();
    good.end_level(vec![ran("a", true, None), ran("b", true, None)]);
    assert_eq!(level(&mut good), vec!["c"]);
    good.end_level(vec![ran("c", true, None)]);
    let r = good.result();
    assert!(!r.any_failed);
    assert_eq!((r.started.len(), r.pending_job_updates.len()), (3, 3));
    let mut bad = begin();
    bad.end_level(vec![TaskEnd::Panicked, ran("b", true, None)]);
    assert_eq!(bad.ports.get(&id("b")), Some(vec![3000]));
    assert!(matches!(bad.next(), StartAction::Done));
    let r = bad.result();
    assert!(r.any_failed);
    assert_eq!((r.started.len(), r.pending_job_updates.len()), (1, 1));
}

#[test]
fn what_is_not_started_has_a_reason() {
    let client = IpcClient {
        active: vec![daemon("up", DaemonStatus::Running), daemon("web", DaemonStatus::Waiting)],
        disabled: ids(&["off"]),
    };
    let mut bare = daemon("bare", DaemonStatus::Stopped);
    bare.cmd = None;
    let known = vec![daemon("adhoc", DaemonStatus::Stopped), bare];
    let wanted = ids(&["up", "off", "db", "adhoc", "bare", "gone"]);
    let s = client.start_daemons(
        &wanted,
        &StartOptions::default(),
        &project(&["db", "up", "web", "off"]),
        known,
    );
    assert_eq!(s.skip_reason(&id("off")), Some(Skip::Disabled));
    assert_eq!(s.skip_reason(&id("up")), Some(Skip::Running { explicit: true }));
    assert_eq!(s.skip_reason(&id("web")), Some(Skip::Running { explicit: false }));
    assert_eq!(s.skip_reason(&id("bare")), Some(Skip::NoCommand));
    assert_eq!(s.skip_reason(&id("gone")), Some(Skip::Unknown));
    assert_eq!(s.skip_reason(&id("db")), None);
    assert_eq!(s.skip_reason(&id("adhoc")), None);
    assert!(!s.is_restart(&id("up")) && !s.is_aborted());
    let mut s = client.start_daemons(&wanted, &forced(), &project(&["up", "web"]), Vec::new());
    assert!(s.is_restart(&id("up")) && !s.is_restart(&id("web")) && !s.is_restart(&id("db")));
    assert_eq!(s.skip_reason(&id("up")), None);
    s.set_levels(vec![ids(&["up"]), ids(&["web"])]);
    level(&mut s);
    s.end_level(vec![TaskEnd::Panicked]);
    assert!(s.is_aborted());
    assert_eq!(names(&enabled_among(&ids(&["a", "off", "b"]), &ids(&["off"]))), vec!["a", "b"]);
    assert!(outcome(false, Some(0), vec![], None).ended());
    assert!(!outcome(false, None, vec![], None).ended());
    assert!(!outcome(true, Some(1), vec![], None).ended());
}
