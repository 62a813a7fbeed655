use indexmap::IndexMap;
use pitchfork::batch::{
    adhoc_run_options, build_run_options, merge_ready_http_override, override_run_options,
    ready_check_type, ReadyCheckType, StartOptions,
};
use pitchfork::config::{
    PitchforkTomlDaemon, PortBump, PortConfig, ReadyHttp, Retry, RunOptions,
};
use pitchfork::daemon::DaemonId;
use pitchfork::paths::{resolve_daemon_dir, Locations};
use std::path::{Path, PathBuf};

fn locations() -> Locations {
    Locations {
        cwd: "/home/user/work".to_string(),
        global_user: "/home/user/.config/pitchfork/config.toml".to_string(),
        global_system: "/etc/pitchfork/config.toml".to_string(),
    }
}

fn resolved(dir: Option<&str>, config_path: Option<&str>) -> PathBuf {
    PathBuf::from(resolve_daemon_dir(dir, config_path, &locations()))
}

fn section(run: &str) -> PitchforkTomlDaemon {
    let mut c = PitchforkTomlDaemon::default();
    c.run = run.to_string();
    c
}

fn request(run: &str, opts: &StartOptions) -> RunOptions {
    build_run_options(&DaemonId::new("project", "api"), &section(run), opts, &locations()).unwrap()
}

#[test]
fn http_override_preserves_configured_status_codes() {
    let configured = Some(ReadyHttp {
        url: "http://localhost:3000/original".to_string(),
        status: vec![401],
    });

    let ready_http =
        merge_ready_http_override(configured, Some("http://localhost:3000/health".to_string()))
            .unwrap();

    assert_eq!(ready_http.url, "http://localhost:3000/health");
    assert_eq!(ready_http.status, vec![401]);
    assert!(ready_http.accepts_status(401));
    assert!(!ready_http.accepts_status(200));
}

#[test]
fn build_run_options_preserves_ready_http_status_for_cli_http_override() {
    let id = DaemonId::new("project", "api");
    let mut daemon_config = PitchforkTomlDaemon::default();
    daemon_config.run = "echo ready".to_string();
    daemon_config.ready_http = Some(ReadyHttp {
        url: "http://localhost:3000/original".to_string(),
        status: vec![401],
    });
    let mut opts = StartOptions::default();
    opts.http = Some("http://localhost:3000/health".to_string());

    let run_opts = build_run_options(&id, &daemon_config, &opts, &locations()).unwrap();
    let ready_http = run_opts.ready_http.unwrap();

    assert_eq!(ready_http.url, "http://localhost:3000/health");
    assert_eq!(ready_http.status, vec![401]);
}

#[test]
fn test_resolve_daemon_dir_none() {
    let result = resolved(None, Some("/projects/myapp/pitchfork.toml"));
    assert_eq!(result, PathBuf::from("/projects/myapp"));
}

#[test]
fn test_resolve_daemon_dir_relative() {
    let result = resolved(Some("frontend"), Some("/projects/myapp/pitchfork.toml"));
    assert_eq!(result, PathBuf::from("/projects/myapp/frontend"));
}

#[test]
fn test_resolve_daemon_dir_absolute() {
    let result = resolved(Some("/opt/myapp"), Some("/projects/myapp/pitchfork.toml"));
    assert_eq!(result, PathBuf::from("/opt/myapp"));
}

#[test]
fn test_resolve_daemon_dir_no_config_path() {
    let result = resolved(None, None);
    assert_eq!(result, PathBuf::from(locations().cwd));
}

#[test]
fn test_resolve_daemon_dir_relative_no_config_path() {
    let result = resolved(Some("subdir"), None);
    assert_eq!(result, Path::new(&locations().cwd).join("subdir"));
}

#[test]
fn test_resolve_daemon_dir_nested_relative() {
    let result = resolved(Some("services/api"), Some("/projects/myapp/pitchfork.toml"));
    assert_eq!(result, PathBuf::from("/projects/myapp/services/api"));
}

#[test]
fn test_resolve_daemon_dir_dot_config_none() {
    let result = resolved(None, Some("/projects/myapp/.config/pitchfork.toml"));
    assert_eq!(
        result,
        PathBuf::from("/projects/myapp"),
        ".config/pitchfork.toml should resolve to project dir"
    );
}

#[test]
fn test_resolve_daemon_dir_dot_config_local_none() {
    let result = resolved(None, Some("/projects/myapp/.config/pitchfork.local.toml"));
    assert_eq!(
        result,
        PathBuf::from("/projects/myapp"),
        ".config/pitchfork.local.toml should resolve to project dir"
    );
}

#[test]
fn test_resolve_daemon_dir_dot_config_relative() {
    let result = resolved(Some("frontend"), Some("/projects/myapp/.config/pitchfork.toml"));
    assert_eq!(
        result,
        PathBuf::from("/projects/myapp/frontend"),
        "Relative dir should resolve from project dir"
    );
}

#[test]
fn test_resolve_daemon_dir_dot_config_local_relative() {
    let result = resolved(Some("frontend"), Some("/projects/myapp/.config/pitchfork.local.toml"));
    assert_eq!(
        result,
        PathBuf::from("/projects/myapp/frontend"),
        "Relative dir should resolve from project dir"
    );
}

#[test]
fn test_resolve_daemon_dir_dot_config_absolute() {
    let result = resolved(Some("/opt/service"), Some("/projects/myapp/.config/pitchfork.toml"));
    assert_eq!(
        result,
        PathBuf::from("/opt/service"),
        "Absolute dir should override project dir"
    );
}

#[test]
fn test_resolve_daemon_dir_dot_config_local_absolute() {
    let result =
        resolved(Some("/opt/service"), Some("/projects/myapp/.config/pitchfork.local.toml"));
    assert_eq!(
        result,
        PathBuf::from("/opt/service"),
        "Absolute dir should override project dir"
    );
}

#[test]
fn test_resolve_daemon_dir_global_config_normal() {
    let global_path = locations().global_user;
    let result = resolved(None, Some(&global_path));
    assert_eq!(
        result,
        Path::new(&global_path).parent().unwrap(),
        "Global config should use parent directory"
    );
}

#[test]
fn a_global_file_named_like_a_project_file_uses_its_own_directory() {
    let mut at = locations();
    at.global_user = "/home/user/.config/pitchfork.toml".to_string();
    let dir = resolve_daemon_dir(None, Some("/home/user//.config/pitchfork.toml"), &at);
    assert_eq!(PathBuf::from(dir), PathBuf::from("/home/user/.config"));
}

#[test]
fn a_success_is_an_answer_where_no_status_is_listed() {
    let http = ReadyHttp::new("http://localhost".to_string());
    assert!(http.status.is_empty());
    assert!(http.accepts_status(200));
    assert!(http.accepts_status(299));
    assert!(!http.accepts_status(199));
    assert!(!http.accepts_status(300));
}

#[test]
fn merging_without_an_override_keeps_what_is_configured() {
    assert!(merge_ready_http_override(None, None).is_none());
    let kept = merge_ready_http_override(
        Some(ReadyHttp { url: "http://a".to_string(), status: vec![204] }),
        None,
    )
    .unwrap();
    assert_eq!(kept.url, "http://a");
    assert_eq!(kept.status, vec![204]);
    let new = merge_ready_http_override(None, Some("http://b".to_string())).unwrap();
    assert_eq!(new.url, "http://b");
    assert!(new.status.is_empty());
}

#[test]
fn command_lines_are_split_like_in_a_shell() {
    let opts = StartOptions::default();
    assert_eq!(request("npm run  dev\t-p 1", &opts).cmd, vec!["npm", "run", "dev", "-p", "1"]);
    assert_eq!(request("echo 'a b' \"c d\" e\\ f", &opts).cmd, vec!["echo", "a b", "c d", "e f"]);
    assert_eq!(request("echo # comment", &opts).cmd, vec!["echo"]);
    assert!(request("", &opts).cmd.is_empty());
}

#[test]
fn an_open_quote_is_an_error() {
    let r = build_run_options(
        &DaemonId::new("project", "api"),
        &section("echo 'oops"),
        &StartOptions::default(),
        &locations(),
    );
    assert_eq!(r.unwrap_err(), "Failed to parse command: missing closing quote");
}

#[test]
fn options_win_over_the_section() {
    let mut c = section("true");
    c.ready_delay = Some(7);
    c.ready_output = Some("up".to_string());
    c.ready_port = Some(80);
    c.ready_cmd = Some("test -f x".to_string());
    c.port = Some(PortConfig { expect: vec![1, 2], bump: PortBump(5) });
    c.retry = Retry(4);
    let id = DaemonId::new("project", "api");

    let plain = build_run_options(&id, &c, &StartOptions::default(), &locations()).unwrap();
    assert_eq!(plain.ready_delay, Some(7));
    assert_eq!(plain.ready_output.as_deref(), Some("up"));
    assert_eq!(plain.ready_port, Some(80));
    assert_eq!(plain.ready_cmd.as_deref(), Some("test -f x"));
    assert_eq!(plain.port.as_ref().unwrap().expect, vec![1, 2]);
    assert_eq!(plain.retry, Retry(4));
    assert!(plain.wait_ready);
    assert!(!plain.force);

    let mut opts = StartOptions::default();
    opts.force = true;
    opts.shell_pid = Some(42);
    opts.delay = Some(1);
    opts.output = Some("go".to_string());
    opts.port = Some(81);
    opts.cmd = Some("true".to_string());
    opts.expected_port = Some(vec![9]);
    let changed = build_run_options(&id, &c, &opts, &locations()).unwrap();
    assert!(changed.force);
    assert_eq!(changed.shell_pid, Some(42));
    assert_eq!(changed.ready_delay, Some(1));
    assert_eq!(changed.ready_output.as_deref(), Some("go"));
    assert_eq!(changed.ready_port, Some(81));
    assert_eq!(changed.ready_cmd.as_deref(), Some("true"));
    assert_eq!(changed.port.as_ref().unwrap().expect, vec![9]);
    assert_eq!(changed.port.as_ref().unwrap().bump, PortBump(5));

    let mut bump = StartOptions::default();
    bump.auto_bump_port = Some(PortBump(3));
    let bumped = override_run_options(request("true", &StartOptions::default()), &bump);
    assert_eq!(bumped.port.as_ref().unwrap().bump, PortBump(3));
    assert!(bumped.port.as_ref().unwrap().expect.is_empty());
}

#[test]
fn the_default_delay_is_three_seconds() {
    assert_eq!(request("true", &StartOptions::default()).ready_delay, Some(3));
}

#[test]
fn a_request_carries_what_the_section_says() {
    let mut env: IndexMap<String, String> = IndexMap::new();
    env.insert("B".to_string(), "2".to_string());
    env.insert("A".to_string(), "1".to_string());
    let mut c = section("true");
    c.env = Some(env.clone());
    c.dir = Some("web".to_string());
    c.path = Some("/p/.config/pitchfork.toml".to_string());
    c.watch = vec!["src/**".to_string()];
    c.depends = vec![DaemonId::new("project", "db")];
    let id = DaemonId::new("project", "api");
    let run = build_run_options(&id, &c, &StartOptions::default(), &locations()).unwrap();
    assert_eq!(run.env.unwrap(), env);
    assert_eq!(run.dir.0, "/p/web");
    assert_eq!(run.watch_base_dir.as_deref(), Some("/p"));
    assert_eq!(run.watch, vec!["src/**"]);
    assert_eq!(run.depends[0].qualified(), "project/db");
    assert_eq!(run.id.qualified(), "project/api");
}

#[test]
fn the_first_check_that_is_asked_for_counts() {
    let mut run = request("true", &StartOptions::default());
    assert!(matches!(ready_check_type(&run), ReadyCheckType::Delay(3)));
    run.ready_cmd = Some("c".to_string());
    assert!(matches!(ready_check_type(&run), ReadyCheckType::Cmd(c) if c == "c"));
    run.ready_port = Some(80);
    assert!(matches!(ready_check_type(&run), ReadyCheckType::Port(80)));
    run.ready_http = Some(ReadyHttp::new("http://x".to_string()));
    assert!(matches!(ready_check_type(&run), ReadyCheckType::Http(u) if u == "http://x"));
    run.ready_output = Some("ok".to_string());
    assert!(matches!(ready_check_type(&run), ReadyCheckType::Output(o) if o == "ok"));
    run.ready_output = None;
    run.ready_http = None;
    run.ready_port = None;
    run.ready_cmd = None;
    run.ready_delay = None;
    assert!(matches!(ready_check_type(&run), ReadyCheckType::Default));
}

#[test]
fn a_one_off_daemon_gets_what_the_options_say() {
    let mut opts = StartOptions::default();
    opts.retry = Some(Retry(2));
    opts.http = Some("http://x".to_string());
    let run = adhoc_run_options(
        &DaemonId::new("global", "tool"),
        vec!["sleep".to_string(), "1".to_string()],
        "/tmp".to_string(),
        None,
        Some(ReadyHttp { url: "http://old".to_string(), status: vec![418] }),
        &opts,
    );
    assert_eq!(run.cmd, vec!["sleep", "1"]);
    assert_eq!(run.dir.0, "/tmp");
    assert_eq!(run.retry, Retry(2));
    assert_eq!(run.ready_delay, Some(3));
    let http = run.ready_http.unwrap();
    assert_eq!(http.url, "http://x");
    assert_eq!(http.status, vec![418]);
    assert!(run.port.is_none());
    assert!(run.wait_ready);
    assert!(run.env.is_none());

    opts.expected_port = Some(vec![3000]);
    opts.auto_bump_port = Some(PortBump(1));
    opts.delay = Some(0);
    let run = adhoc_run_options(
        &DaemonId::new("global", "tool"),
        Vec::new(),
        String::new(),
        None,
        None,
        &opts,
    );
    let port = run.port.unwrap();
    assert_eq!(port.expect, vec![3000]);
    assert_eq!(port.bump, PortBump(1));
    assert_eq!(run.ready_delay, Some(0));
}
