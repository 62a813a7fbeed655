//! What the supervisor is asked to run, from the configuration and from what
//! the user says.
use vstd::prelude::*;

use crate::config::{
    clone_numbers, ConfigView, Dir, EnvMap, PitchforkTomlDaemon, PortBump, PortConfig,
    PortConfigView, ReadyHttp, ReadyHttpView, Retry, RunOptions, RunView,
};
use crate::config;
use crate::daemon::{DaemonId, IdView};
use crate::paths::Locations;
use crate::paths;
use crate::text;
use crate::text::clone_opt;

verus! {

// ---------------------------------------------------------------------------
// Command lines
// ---------------------------------------------------------------------------

/// The words of a command line, as a shell would split it; none where a quote
/// is not closed.
pub uninterp spec fn shell_words_of(line: Seq<char>) -> Option<Seq<Seq<char>>>;

/// Whether there is a quote in a line.
pub open spec fn has_quotes(line: Seq<char>) -> bool {
    line.contains('\'') || line.contains('\"')
}

/// Whether a line holds nothing that a shell would treat in a special way when
/// it splits the line: no quotes, no backslash and no comment sign.
pub open spec fn plain_line(line: Seq<char>) -> bool {
    !has_quotes(line) && !line.contains('\\') && !line.contains('#')
}

/// The pieces of a line between blanks, tabs and line ends.
pub open spec fn blank_words(line: Seq<char>) -> Seq<Seq<char>> {
    let spaced = line.map_values(
        |c: char|
            if c == '\t' || c == '\n' {
                ' '
            } else {
                c
            },
    );
    text::split(spaced, ' ').filter(|w: Seq<char>| w.len() > 0)
}

/// `shell_words::split`: the words of the line, or the error's text where a
/// quote is not closed. A line without quotes never fails, and a plain line
/// splits at its blanks; else the words are left to the name.
#[verifier::external_body]
fn split_command(line: &str) -> (r: Result<Vec<String>, String>)
    ensures
        match r {
            Ok(words) => shell_words_of(line@) == Some(text::views(words@)),
            Err(e) => shell_words_of(line@) is None && e@ == "missing closing quote"@,
        },
        !has_quotes(line@) ==> r is Ok,
        plain_line(line@) ==> r is Ok && text::views(r->Ok_0@) == blank_words(line@),
{
    shell_words::split(line).map_err(|e| e.to_string())
}

// ---------------------------------------------------------------------------
// What the user says
// ---------------------------------------------------------------------------

/// How daemons are to be started.
#[derive(Debug)]
pub struct StartOptions {
    /// Restart what is already running.
    pub force: bool,
    /// The shell whose end stops the daemon.
    pub shell_pid: Option<u32>,
    pub delay: Option<u64>,
    pub output: Option<String>,
    pub http: Option<String>,
    pub port: Option<u16>,
    pub cmd: Option<String>,
    /// The ports that the daemon binds to, where said.
    pub expected_port: Option<Vec<u16>>,
    pub auto_bump_port: Option<PortBump>,
    /// How often a failed start is tried again, for daemons without a section.
    pub retry: Option<Retry>,
    pub quiet: bool,
}

#[verifier::ext_equal]
pub struct StartView {
    pub force: bool,
    pub shell_pid: Option<u32>,
    pub delay: Option<u64>,
    pub output: Option<Seq<char>>,
    pub http: Option<Seq<char>>,
    pub port: Option<u16>,
    pub cmd: Option<Seq<char>>,
    pub expected_port: Option<Seq<u16>>,
    pub auto_bump_port: Option<PortBump>,
    pub retry: Option<Retry>,
    pub quiet: bool,
}

pub open spec fn opt_ports(v: Option<Vec<u16>>) -> Option<Seq<u16>> {
    match v {
        Some(v) => Some(v@),
        None => None,
    }
}

impl View for StartOptions {
    type V = StartView;

    open spec fn view(&self) -> StartView {
        StartView {
            force: self.force,
            shell_pid: self.shell_pid,
            delay: self.delay,
            output: text::opt_view(self.output),
            http: text::opt_view(self.http),
            port: self.port,
            cmd: text::opt_view(self.cmd),
            expected_port: opt_ports(self.expected_port),
            auto_bump_port: self.auto_bump_port,
            retry: self.retry,
            quiet: self.quiet,
        }
    }
}

/// Options that say nothing.
pub open spec fn no_options() -> StartView {
    StartView {
        force: false,
        shell_pid: None,
        delay: None,
        output: None,
        http: None,
        port: None,
        cmd: None,
        expected_port: None,
        auto_bump_port: None,
        retry: None,
        quiet: false,
    }
}

impl Default for StartOptions {
    fn default() -> (r: Self)
        ensures
            r@ == no_options(),
    {
        StartOptions {
            force: false,
            shell_pid: None,
            delay: None,
            output: None,
            http: None,
            port: None,
            cmd: None,
            expected_port: None,
            auto_bump_port: None,
            retry: None,
            quiet: false,
        }
    }
}

impl Clone for StartOptions {
    fn clone(&self) -> (r: Self)
        ensures
            r@ == self@,
    {
        StartOptions {
            force: self.force,
            shell_pid: self.shell_pid,
            delay: self.delay,
            output: clone_opt(&self.output),
            http: clone_opt(&self.http),
            port: self.port,
            cmd: clone_opt(&self.cmd),
            expected_port: match &self.expected_port {
                Some(ports) => Some(clone_numbers(ports)),
                None => None,
            },
            auto_bump_port: self.auto_bump_port,
            retry: self.retry,
            quiet: self.quiet,
        }
    }
}

// ---------------------------------------------------------------------------
// From both to a request
// ---------------------------------------------------------------------------

/// The first of the two that says something.
pub open spec fn either<A>(first: Option<A>, second: Option<A>) -> Option<A> {
    if first is Some {
        first
    } else {
        second
    }
}

/// The readiness address: another one takes over the status codes of the
/// configured one.
pub open spec fn merged_http(
    configured: Option<ReadyHttpView>,
    url: Option<Seq<char>>,
) -> Option<ReadyHttpView> {
    match (configured, url) {
        (Some(http), Some(url)) => Some(ReadyHttpView { url, status: http.status }),
        (None, Some(url)) => Some(ReadyHttpView { url, status: Seq::empty() }),
        (configured, None) => configured,
    }
}

pub fn merge_ready_http_override(configured: Option<ReadyHttp>, override_url: Option<String>) -> (r:
    Option<ReadyHttp>)
    ensures
        config::opt_ready_http(r) == merged_http(
            config::opt_ready_http(configured),
            text::opt_view(override_url),
        ),
{
    match (configured, override_url) {
        (Some(http), Some(url)) => Some(ReadyHttp { url, status: http.status }),
        (None, Some(url)) => Some(ReadyHttp::new(url)),
        (configured, None) => configured,
    }
}

/// The port configuration, where one is not there a blank one.
pub open spec fn port_or_blank(port: Option<PortConfigView>) -> PortConfigView {
    match port {
        Some(p) => p,
        None => PortConfigView { expect: Seq::empty(), bump: PortBump(0) },
    }
}

/// The port configuration with what the user says in place of its parts.
pub open spec fn merged_port(
    configured: Option<PortConfigView>,
    expect: Option<Seq<u16>>,
    bump: Option<PortBump>,
) -> Option<PortConfigView> {
    if expect is None && bump is None {
        configured
    } else {
        let base = port_or_blank(configured);
        Some(
            PortConfigView {
                expect: match expect {
                    Some(e) => e,
                    None => base.expect,
                },
                bump: match bump {
                    Some(b) => b,
                    None => base.bump,
                },
            },
        )
    }
}

/// A request with what the user says in place of what is configured. The
/// supervisor is to wait until the daemon is ready; where nothing says how
/// long, three seconds.
pub open spec fn overridden(run: RunView, o: StartView) -> RunView {
    RunView {
        shell_pid: o.shell_pid,
        force: o.force,
        wait_ready: true,
        ready_delay: either(either(o.delay, run.ready_delay), Some(3u64)),
        ready_output: either(o.output, run.ready_output),
        ready_http: merged_http(run.ready_http, o.http),
        ready_port: either(o.port, run.ready_port),
        ready_cmd: either(o.cmd, run.ready_cmd),
        port: merged_port(run.port, o.expected_port, o.auto_bump_port),
        ..run
    }
}

fn first_number(first: Option<u64>, second: Option<u64>) -> (r: Option<u64>)
    ensures
        r == either(first, second),
{
    if first.is_some() {
        first
    } else {
        second
    }
}

fn first_text(first: &Option<String>, second: Option<String>) -> (r: Option<String>)
    ensures
        text::opt_view(r) == either(text::opt_view(*first), text::opt_view(second)),
{
    match first {
        Some(t) => Some(t.clone()),
        None => second,
    }
}

/// Puts what the user says in place of what is configured.
pub fn override_run_options(run: RunOptions, opts: &StartOptions) -> (r: RunOptions)
    ensures
        r@ == overridden(run@, opts@),
        r.id@ == run.id@,
        text::views(r.cmd@) == text::views(run.cmd@),
        r.dir.0@ == run.dir.0@,
        opts.output matches Some(t) ==> (r.ready_output matches Some(u) && u@ == t@),
        opts.http matches Some(t) ==> (r.ready_http matches Some(h) && h.url@ == t@),
        opts.cmd matches Some(t) ==> (r.ready_cmd matches Some(u) && u@ == t@),
        opts.port is Some ==> r.ready_port == opts.port,
        opts.delay is Some ==> r.ready_delay == opts.delay,
        opts.expected_port matches Some(e) ==> (r.port matches Some(p) && p.expect@ == e@),
        opts.auto_bump_port matches Some(b) ==> (r.port matches Some(p) && p.bump == b),
{
    let mut run = run;
    run.shell_pid = opts.shell_pid;
    run.force = opts.force;
    run.wait_ready = true;
    run.ready_delay = first_number(first_number(opts.delay, run.ready_delay), Some(3));
    run.ready_output = first_text(&opts.output, run.ready_output);
    run.ready_http = merge_ready_http_override(run.ready_http, clone_opt(&opts.http));
    run.ready_port = if opts.port.is_some() {
        opts.port
    } else {
        run.ready_port
    };
    run.ready_cmd = first_text(&opts.cmd, run.ready_cmd);
    if opts.expected_port.is_some() || opts.auto_bump_port.is_some() {
        let base = match run.port {
            Some(p) => p,
            None => PortConfig::default(),
        };
        run.port =
        Some(
            PortConfig {
                expect: match &opts.expected_port {
                    Some(ports) => clone_numbers(ports),
                    None => base.expect,
                },
                bump: match opts.auto_bump_port {
                    Some(b) => b,
                    None => base.bump,
                },
            },
        );
    }
    run
}

/// The request for a configured daemon, given the words of its command line.
pub open spec fn built_run(
    id: IdView,
    c: ConfigView,
    words: Seq<Seq<char>>,
    o: StartView,
    at: Locations,
) -> RunView {
    overridden(config::configured_run(id, c, words, at), o)
}

/// The request for a configured daemon; an error where its command line does
/// not split into words.
pub fn build_run_options(
    id: &DaemonId,
    daemon_config: &PitchforkTomlDaemon,
    opts: &StartOptions,
    at: &Locations,
) -> (r: Result<RunOptions, String>)
    ensures
        match shell_words_of(daemon_config@.run) {
            Some(words) => r matches Ok(run) && run@ == built_run(
                id@,
                daemon_config@,
                words,
                opts@,
                *at,
            ),
            None => r matches Err(e) && e@ == "Failed to parse command: "@
                + "missing closing quote"@,
        },
        !has_quotes(daemon_config@.run) ==> r is Ok,
        plain_line(daemon_config@.run) ==> r is Ok && r->Ok_0@ == built_run(
            id@,
            daemon_config@,
            blank_words(daemon_config@.run),
            opts@,
            *at,
        ),
{
    match split_command(daemon_config.run.as_str()) {
        Ok(cmd) => Ok(override_run_options(daemon_config.to_run_options(id, cmd, at), opts)),
        Err(e) => {
            let mut msg = "Failed to parse command: ".to_owned();
            msg.append(e.as_str());
            Err(msg)
        },
    }
}

/// The request for a daemon without a section.
pub open spec fn adhoc_run(
    id: IdView,
    cmd: Seq<Seq<char>>,
    dir: Seq<char>,
    env: Option<Seq<(Seq<char>, Seq<char>)>>,
    ready_http: Option<ReadyHttpView>,
    o: StartView,
) -> RunView {
    RunView {
        id,
        cmd,
        shell_pid: o.shell_pid,
        force: o.force,
        dir,
        auto: Seq::empty(),
        cron: None,
        retry: match o.retry {
            Some(retry) => retry,
            None => Retry(0),
        },
        ready_delay: either(o.delay, Some(3u64)),
        ready_output: o.output,
        ready_http: merged_http(ready_http, o.http),
        ready_port: o.port,
        ready_cmd: o.cmd,
        port: config::port_parts(
            match o.expected_port {
                Some(ports) => ports,
                None => Seq::empty(),
            },
            match o.auto_bump_port {
                Some(bump) => bump,
                None => PortBump(0),
            },
        ),
        wait_ready: true,
        depends: Seq::empty(),
        env,
        watch: Seq::empty(),
        watch_base_dir: None,
        mise: None,
        slug: None,
        proxy: None,
    }
}

/// The request for a daemon without a section.
pub fn adhoc_run_options(
    id: &DaemonId,
    cmd: Vec<String>,
    dir: String,
    env: Option<EnvMap>,
    ready_http: Option<ReadyHttp>,
    opts: &StartOptions,
) -> (r: RunOptions)
    ensures
        r@ == adhoc_run(
            id@,
            text::views(cmd@),
            dir@,
            config::opt_env(env),
            config::opt_ready_http(ready_http),
            opts@,
        ),
        r.id@ == id@,
        r.cmd == cmd,
        r.dir.0 == dir,
        r.env == env,
        opts.output matches Some(t) ==> (r.ready_output matches Some(u) && u@ == t@),
        opts.http matches Some(t) ==> (r.ready_http matches Some(h) && h.url@ == t@),
        opts.cmd matches Some(t) ==> (r.ready_cmd matches Some(u) && u@ == t@),
        r.ready_port == opts.port,
        opts.delay is Some ==> r.ready_delay == opts.delay,
{
    let expect = match &opts.expected_port {
        Some(ports) => clone_numbers(ports),
        None => Vec::new(),
    };
    let bump = match opts.auto_bump_port {
        Some(b) => b,
        None => PortBump(0),
    };
    let ghost said = match opts@.expected_port {
        Some(ports) => ports,
        None => Seq::empty(),
    };
    assert(expect@ =~= said);
    let r = RunOptions {
        id: id.clone(),
        cmd,
        shell_pid: opts.shell_pid,
        force: opts.force,
        dir: Dir(dir),
        auto: Vec::new(),
        cron: None,
        retry: match opts.retry {
            Some(retry) => retry,
            None => Retry(0),
        },
        ready_delay: first_number(opts.delay, Some(3)),
        ready_output: clone_opt(&opts.output),
        ready_http: merge_ready_http_override(ready_http, clone_opt(&opts.http)),
        ready_port: opts.port,
        ready_cmd: clone_opt(&opts.cmd),
        port: PortConfig::from_parts(expect, bump),
        wait_ready: true,
        depends: Vec::new(),
        env,
        watch: Vec::new(),
        watch_base_dir: None,
        mise: None,
        slug: None,
        proxy: None,
    };
    assert(r@.auto =~= Seq::empty());
    assert(r@.depends =~= Seq::empty());
    assert(r@.watch =~= Seq::empty());
    r
}

// ---------------------------------------------------------------------------
// How it is known that a daemon is ready
// ---------------------------------------------------------------------------

#[derive(Debug)]
pub enum ReadyCheckType {
    Output(String),
    Http(String),
    Port(u16),
    Cmd(String),
    Delay(u64),
    Default,
}

#[verifier::ext_equal]
pub enum ReadyCheckView {
    Output(Seq<char>),
    Http(Seq<char>),
    Port(u16),
    Cmd(Seq<char>),
    Delay(u64),
    Default,
}

impl View for ReadyCheckType {
    type V = ReadyCheckView;

    open spec fn view(&self) -> ReadyCheckView {
        match self {
            ReadyCheckType::Output(s) => ReadyCheckView::Output(s@),
            ReadyCheckType::Http(s) => ReadyCheckView::Http(s@),
            ReadyCheckType::Port(p) => ReadyCheckView::Port(*p),
            ReadyCheckType::Cmd(s) => ReadyCheckView::Cmd(s@),
            ReadyCheckType::Delay(d) => ReadyCheckView::Delay(*d),
            ReadyCheckType::Default => ReadyCheckView::Default,
        }
    }
}

/// The check that counts where several are asked for.
pub open spec fn effective_check(
    output: Option<Seq<char>>,
    http: Option<Seq<char>>,
    port: Option<u16>,
    cmd: Option<Seq<char>>,
    delay: Option<u64>,
) -> ReadyCheckView {
    if let Some(pattern) = output {
        ReadyCheckView::Output(pattern)
    } else if let Some(url) = http {
        ReadyCheckView::Http(url)
    } else if let Some(p) = port {
        ReadyCheckView::Port(p)
    } else if let Some(c) = cmd {
        ReadyCheckView::Cmd(c)
    } else if let Some(secs) = delay {
        ReadyCheckView::Delay(secs)
    } else {
        ReadyCheckView::Default
    }
}

/// The check that counts where several are asked for.
pub fn choose_check(
    output: &Option<String>,
    http: Option<&String>,
    port: Option<u16>,
    cmd: &Option<String>,
    delay: Option<u64>,
) -> (r: ReadyCheckType)
    ensures
        r@ == effective_check(
            text::opt_view(*output),
            match http {
                Some(url) => Some(url@),
                None => None,
            },
            port,
            text::opt_view(*cmd),
            delay,
        ),
{
    if let Some(pattern) = output {
        ReadyCheckType::Output(pattern.clone())
    } else if let Some(url) = http {
        ReadyCheckType::Http(url.clone())
    } else if let Some(p) = port {
        ReadyCheckType::Port(p)
    } else if let Some(c) = cmd {
        ReadyCheckType::Cmd(c.clone())
    } else if let Some(secs) = delay {
        ReadyCheckType::Delay(secs)
    } else {
        ReadyCheckType::Default
    }
}

/// The check of a request.
pub open spec fn check_of(run: RunView) -> ReadyCheckView {
    effective_check(
        run.ready_output,
        match run.ready_http {
            Some(http) => Some(http.url),
            None => None,
        },
        run.ready_port,
        run.ready_cmd,
        run.ready_delay,
    )
}

pub fn ready_check_type(opts: &RunOptions) -> (r: ReadyCheckType)
    ensures
        r@ == check_of(opts@),
{
    let url = match &opts.ready_http {
        Some(http) => Some(&http.url),
        None => None,
    };
    choose_check(&opts.ready_output, url, opts.ready_port, &opts.ready_cmd, opts.ready_delay)
}

// ---------------------------------------------------------------------------
// Laws
// ---------------------------------------------------------------------------

/// Another readiness address keeps the status codes that are configured.
pub proof fn law_http_override_keeps_status(run: RunView, o: StartView)
    requires
        o.http is Some,
    ensures
        overridden(run, o).ready_http == Some(
            ReadyHttpView {
                url: o.http->0,
                status: match run.ready_http {
                    Some(http) => http.status,
                    None => Seq::empty(),
                },
            },
        ),
{
}

/// Where the user says nothing, everything is as configured, but that the
/// supervisor waits until the daemon is ready, three seconds by default.
pub proof fn law_no_options_keep_the_configuration(run: RunView)
    ensures
        overridden(run, no_options()) == (RunView {
            shell_pid: None,
            force: false,
            wait_ready: true,
            ready_delay: either(run.ready_delay, Some(3u64)),
            ..run
        }),
{
}

/// A request that was built always has some check, and never the default one:
/// at the least there is a delay.
pub proof fn law_requests_have_a_check(run: RunView, o: StartView)
    ensures
        check_of(overridden(run, o)) != ReadyCheckView::Default,
{
}

/// What the user says counts, part by part, and each part that the user does
/// not speak of stays as it is configured: the ports whatever is said of the
/// bump, the bump whatever is said of the ports, the status codes whatever is
/// said of the address. All that has no option stays in any case.
pub proof fn law_an_option_replaces_its_own_part(run: RunView, o: StartView)
    ensures
        ({
            let r = overridden(run, o);
            // What is said is there.
            &&& o.delay is Some ==> r.ready_delay == o.delay
            &&& o.output is Some ==> r.ready_output == o.output
            &&& o.http is Some ==> r.ready_http is Some && r.ready_http->0.url == o.http->0
            &&& o.port is Some ==> r.ready_port == o.port
            &&& o.cmd is Some ==> r.ready_cmd == o.cmd
            &&& o.expected_port is Some ==> r.port is Some && r.port->0.expect
                == o.expected_port->0
            &&& o.auto_bump_port is Some ==> r.port is Some && r.port->0.bump
                == o.auto_bump_port->0
            &&& r.force == o.force
            &&& r.shell_pid == o.shell_pid
            &&& r.wait_ready
            // What is not said is as configured.
            &&& o.delay is None && run.ready_delay is Some ==> r.ready_delay == run.ready_delay
            &&& o.output is None ==> r.ready_output == run.ready_output
            &&& o.http is None ==> r.ready_http == run.ready_http
            &&& o.port is None ==> r.ready_port == run.ready_port
            &&& o.cmd is None ==> r.ready_cmd == run.ready_cmd
            &&& run.port is Some ==> r.port is Some
            &&& run.port is Some && o.expected_port is None ==> r.port->0.expect
                == run.port->0.expect
            &&& run.port is Some && o.auto_bump_port is None ==> r.port->0.bump
                == run.port->0.bump
            &&& run.ready_http is Some ==> r.ready_http is Some && r.ready_http->0.status
                == run.ready_http->0.status
            // Where nothing is said and nothing configured, there is nothing but
            // the delay.
            &&& o.delay is None && run.ready_delay is None ==> r.ready_delay == Some(3u64)
            &&& o.http is Some && run.ready_http is None ==> r.ready_http->0.status.len() == 0
            &&& o.expected_port is None && o.auto_bump_port is None ==> r.port == run.port
            &&& run.port is None && r.port is Some && o.expected_port is None
                ==> r.port->0.expect.len() == 0
            &&& run.port is None && r.port is Some && o.auto_bump_port is None
                ==> r.port->0.bump == PortBump(0)
            // What no option speaks of.
            &&& r.id == run.id
            &&& r.cmd == run.cmd
            &&& r.dir == run.dir
            &&& r.auto == run.auto
            &&& r.cron == run.cron
            &&& r.retry == run.retry
            &&& r.depends == run.depends
            &&& r.env == run.env
            &&& r.watch == run.watch
            &&& r.watch_base_dir == run.watch_base_dir
            &&& r.mise == run.mise
            &&& r.slug == run.slug
            &&& r.proxy == run.proxy
        }),
{
}

/// Saying the same things twice is saying them once.
pub proof fn law_options_settle(run: RunView, o: StartView)
    ensures
        overridden(overridden(run, o), o) == overridden(run, o),
{
}

/// A request for a configured daemon is for that daemon, with the words of its
/// command line, and has from its section all that the user does not speak of.
pub proof fn law_sections_come_through(
    id: IdView,
    c: ConfigView,
    words: Seq<Seq<char>>,
    o: StartView,
    at: Locations,
)
    ensures
        ({
            let r = built_run(id, c, words, o, at);
            &&& r.id == id
            &&& r.cmd == words
            &&& r.auto == c.auto
            &&& r.cron == c.cron
            &&& r.retry == c.retry
            &&& r.depends == c.depends
            &&& r.env == c.env
            &&& r.watch == c.watch
            &&& r.mise == c.mise
            &&& r.slug == c.slug
            &&& r.proxy == c.proxy
            &&& r.dir == paths::daemon_dir(c.dir, c.path, at)
            &&& r.watch_base_dir == Some(paths::config_base(c.path, at))
            &&& r.force == o.force
            &&& r.shell_pid == o.shell_pid
            &&& r.wait_ready
            &&& r.ready_output == (if o.output is Some {
                o.output
            } else {
                c.ready_output
            })
            &&& r.ready_port == (if o.port is Some {
                o.port
            } else {
                c.ready_port
            })
            &&& r.ready_cmd == (if o.cmd is Some {
                o.cmd
            } else {
                c.ready_cmd
            })
            &&& o.delay is Some ==> r.ready_delay == o.delay
            &&& o.delay is None && c.ready_delay is Some ==> r.ready_delay == c.ready_delay
            &&& o.delay is None && c.ready_delay is None ==> r.ready_delay == Some(3u64)
            &&& o.http is None ==> r.ready_http == c.ready_http
            &&& o.http is Some ==> r.ready_http is Some && r.ready_http->0.url == o.http->0
            &&& c.ready_http is Some ==> r.ready_http is Some && r.ready_http->0.status
                == c.ready_http->0.status
            &&& o.expected_port is None && o.auto_bump_port is None ==> r.port == c.port
            &&& o.expected_port is Some ==> r.port is Some && r.port->0.expect
                == o.expected_port->0
            &&& o.auto_bump_port is Some ==> r.port is Some && r.port->0.bump
                == o.auto_bump_port->0
            &&& c.port is Some && o.expected_port is None ==> r.port is Some && r.port->0.expect
                == c.port->0.expect
            &&& c.port is Some && o.auto_bump_port is None ==> r.port is Some && r.port->0.bump
                == c.port->0.bump
        }),
{
    law_an_option_replaces_its_own_part(config::configured_run(id, c, words, at), o);
}

/// A request for a daemon without a section carries everything that was asked
/// for, and nothing else: its command, directory and environment, every
/// readiness check that the user named, and the ports and retries.
pub proof fn law_adhoc_requests_carry_what_was_asked(
    id: IdView,
    cmd: Seq<Seq<char>>,
    dir: Seq<char>,
    env: Option<Seq<(Seq<char>, Seq<char>)>>,
    ready_http: Option<ReadyHttpView>,
    o: StartView,
)
    ensures
        ({
            let r = adhoc_run(id, cmd, dir, env, ready_http, o);
            &&& r.id == id
            &&& r.cmd == cmd
            &&& r.dir == dir
            &&& r.env == env
            &&& r.force == o.force
            &&& r.shell_pid == o.shell_pid
            &&& r.wait_ready
            // The readiness checks.
            &&& r.ready_output == o.output
            &&& r.ready_port == o.port
            &&& r.ready_cmd == o.cmd
            &&& o.delay is Some ==> r.ready_delay == o.delay
            &&& o.delay is None ==> r.ready_delay == Some(3u64)
            &&& o.http is None ==> r.ready_http == ready_http
            &&& o.http is Some ==> r.ready_http is Some && r.ready_http->0.url == o.http->0
            &&& o.http is Some && ready_http is Some ==> r.ready_http->0.status
                == ready_http->0.status
            &&& o.http is Some && ready_http is None ==> r.ready_http->0.status.len() == 0
            // Ports and retries.
            &&& o.retry is Some ==> r.retry == o.retry->0
            &&& o.retry is None ==> r.retry == Retry(0)
            &&& o.expected_port is Some && o.expected_port->0.len() > 0 ==> r.port is Some
                && r.port->0.expect == o.expected_port->0
            &&& o.auto_bump_port is Some && o.auto_bump_port->0 != PortBump(0) ==> r.port is Some
                && r.port->0.bump == o.auto_bump_port->0
            &&& r.port is Some && (o.expected_port is None || o.expected_port->0.len() == 0)
                ==> r.port->0.expect.len() == 0 && r.port->0.bump != PortBump(0)
            &&& r.port is Some && o.auto_bump_port is None ==> r.port->0.bump == PortBump(0)
            &&& r.port is Some && o.auto_bump_port is Some ==> r.port->0.bump
                == o.auto_bump_port->0
            &&& r.port is Some && o.expected_port is Some ==> r.port->0.expect
                == o.expected_port->0
            // A section alone could say these.
            &&& r.auto.len() == 0
            &&& r.cron is None
            &&& r.depends.len() == 0
            &&& r.watch.len() == 0
            &&& r.watch_base_dir is None
            &&& r.mise is None
            &&& r.slug is None
            &&& r.proxy is None
        }),
{
}

/// What is waited for: the output where a pattern is given, else the address,
/// else the port, else the command, and else the delay. So is it where the
/// checks stand in a request and where they are named one by one.
pub proof fn law_the_first_check_counts(run: RunView)
    ensures
        run.ready_output is Some ==> check_of(run) == ReadyCheckView::Output(run.ready_output->0),
        run.ready_output is None && run.ready_http is Some ==> check_of(run)
            == ReadyCheckView::Http(run.ready_http->0.url),
        run.ready_output is None && run.ready_http is None && run.ready_port is Some ==> check_of(
            run,
        ) == ReadyCheckView::Port(run.ready_port->0),
        run.ready_output is None && run.ready_http is None && run.ready_port is None
            && run.ready_cmd is Some ==> check_of(run) == ReadyCheckView::Cmd(run.ready_cmd->0),
        run.ready_output is None && run.ready_http is None && run.ready_port is None
            && run.ready_cmd is None && run.ready_delay is Some ==> check_of(run)
            == ReadyCheckView::Delay(run.ready_delay->0),
        check_of(run) is Default <==> run.ready_output is None && run.ready_http is None
            && run.ready_port is None && run.ready_cmd is None && run.ready_delay is None,
{
}

/// The supervisor waits for what the user sees named: the check of a one-off
/// daemon is the one that its options pick, with the delay or three seconds
/// behind them.
pub proof fn law_one_off_daemons_wait_for_what_was_asked(
    id: IdView,
    cmd: Seq<Seq<char>>,
    dir: Seq<char>,
    o: StartView,
)
    ensures
        ({
            let check = check_of(adhoc_run(id, cmd, dir, None, None, o));
            &&& o.output is Some ==> check == ReadyCheckView::Output(o.output->0)
            &&& o.output is None && o.http is Some ==> check == ReadyCheckView::Http(o.http->0)
            &&& o.output is None && o.http is None && o.port is Some ==> check
                == ReadyCheckView::Port(o.port->0)
            &&& o.output is None && o.http is None && o.port is None && o.cmd is Some ==> check
                == ReadyCheckView::Cmd(o.cmd->0)
            &&& o.output is None && o.http is None && o.port is None && o.cmd is None && o.delay
                is Some ==> check == ReadyCheckView::Delay(o.delay->0)
            &&& o.output is None && o.http is None && o.port is None && o.cmd is None && o.delay
                is None ==> check == ReadyCheckView::Delay(3)
            &&& effective_check(o.output, o.http, o.port, o.cmd, o.delay) != ReadyCheckView::Default
                ==> check == effective_check(o.output, o.http, o.port, o.cmd, o.delay)
        }),
{
}

/// The check that counts where several are named: the earlier kinds win.
pub proof fn law_named_checks_rank(
    output: Option<Seq<char>>,
    http: Option<Seq<char>>,
    port: Option<u16>,
    cmd: Option<Seq<char>>,
    delay: Option<u64>,
)
    ensures
        ({
            let check = effective_check(output, http, port, cmd, delay);
            &&& check is Output <==> output is Some
            &&& check is Http <==> output is None && http is Some
            &&& check is Port <==> output is None && http is None && port is Some
            &&& check is Cmd <==> output is None && http is None && port is None && cmd is Some
            &&& check is Delay <==> output is None && http is None && port is None && cmd is None
                && delay is Some
            &&& check matches ReadyCheckView::Output(t) ==> output == Some(t)
            &&& check matches ReadyCheckView::Http(t) ==> http == Some(t)
            &&& check matches ReadyCheckView::Port(p) ==> port == Some(p)
            &&& check matches ReadyCheckView::Cmd(t) ==> cmd == Some(t)
            &&& check matches ReadyCheckView::Delay(d) ==> delay == Some(d)
        }),
{
}

/// Everything that the user says is seen.
pub proof fn law_options_are_seen_whole(o: StartOptions)
    ensures
        o@.force == o.force,
        o@.shell_pid == o.shell_pid,
        o@.delay == o.delay,
        o.output is Some ==> o@.output == Some(o.output->0@),
        o.output is None ==> o@.output is None,
        o.http is Some ==> o@.http == Some(o.http->0@),
        o.http is None ==> o@.http is None,
        o@.port == o.port,
        o.cmd is Some ==> o@.cmd == Some(o.cmd->0@),
        o.cmd is None ==> o@.cmd is None,
        o.expected_port is Some ==> o@.expected_port == Some(o.expected_port->0@),
        o.expected_port is None ==> o@.expected_port is None,
        o@.auto_bump_port == o.auto_bump_port,
        o@.retry == o.retry,
        o@.quiet == o.quiet,
{
}

/// A check is seen as what it is.
pub proof fn law_checks_are_seen_as_they_are(c: ReadyCheckType)
    ensures
        c matches ReadyCheckType::Output(s) ==> c@ == ReadyCheckView::Output(s@),
        c matches ReadyCheckType::Http(s) ==> c@ == ReadyCheckView::Http(s@),
        c matches ReadyCheckType::Port(p) ==> c@ == ReadyCheckView::Port(p),
        c matches ReadyCheckType::Cmd(s) ==> c@ == ReadyCheckView::Cmd(s@),
        c matches ReadyCheckType::Delay(d) ==> c@ == ReadyCheckView::Delay(d),
        c is Default ==> c@ == ReadyCheckView::Default,
{
}

} // verus!
