//! Daemon configuration: what a project file says of each daemon, and what is
//! asked of the supervisor when one is started.
use indexmap::IndexMap;
use vstd::prelude::*;

use crate::daemon::{clone_ids, DaemonId, IdView};
use crate::daemon;
use crate::lists;
use crate::paths;
use crate::paths::{resolve_config_base_dir, resolve_daemon_dir, Locations};
use crate::text;
use crate::text::{clone_opt, clone_strings};

verus! {

// ---------------------------------------------------------------------------
// Ordered maps
// ---------------------------------------------------------------------------

/// The insertion-ordered hash map `indexmap::IndexMap`.
#[verifier::external_type_specification]
#[verifier::external_body]
#[verifier::reject_recursive_types(K)]
#[verifier::reject_recursive_types(V)]
#[verifier::reject_recursive_types(S)]
pub struct ExIndexMap<K, V, S>(indexmap::IndexMap<K, V, S>);

/// Environment variables, in the order in which they were given.
pub type EnvMap = IndexMap<String, String>;

/// The variables that the map holds, in its order.
pub uninterp spec fn env_entries(m: IndexMap<String, String>) -> Seq<(Seq<char>, Seq<char>)>;

/// `IndexMap::new`: a map that holds nothing.
#[verifier::external_body]
pub(crate) fn new_env() -> (r: IndexMap<String, String>)
    ensures
        env_entries(r).len() == 0,
{
    IndexMap::new()
}

/// `IndexMap::insert`: a key that is there keeps its place and gets the new
/// value; another key becomes the last.
#[verifier::external_body]
pub(crate) fn insert_env(m: &mut IndexMap<String, String>, key: String, value: String)
    ensures
        env_entries(*final(m)) == lists::put(env_entries(*old(m)), key@, value@),
{
    m.insert(key, value);
}

/// `IndexMap::is_empty`: whether the map holds nothing.
#[verifier::external_body]
pub(crate) fn env_is_empty(m: &IndexMap<String, String>) -> (r: bool)
    ensures
        r == (env_entries(*m).len() == 0),
{
    m.is_empty()
}

/// `IndexMap::iter`: the variables in the map's order. No key occurs twice.
#[verifier::external_body]
pub(crate) fn env_pairs(m: &IndexMap<String, String>) -> (r: Vec<(String, String)>)
    ensures
        pair_views(r@) == env_entries(*m),
        lists::keys(pair_views(r@)).no_duplicates(),
{
    m.iter().map(|(k, v)| (k.clone(), v.clone())).collect()
}

/// `IndexMap::clone`: a map with the same variables in the same order.
#[verifier::external_body]
pub(crate) fn clone_env(m: &IndexMap<String, String>) -> (r: IndexMap<String, String>)
    ensures
        env_entries(r) == env_entries(*m),
{
    m.clone()
}

/// What a list of pairs of texts stands for.
pub open spec fn pair_views(pairs: Seq<(String, String)>) -> Seq<(Seq<char>, Seq<char>)> {
    pairs.map_values(|p: (String, String)| (p.0@, p.1@))
}

/// What optional environment variables stand for.
pub open spec fn opt_env(env: Option<EnvMap>) -> Option<Seq<(Seq<char>, Seq<char>)>> {
    match env {
        Some(m) => Some(env_entries(m)),
        None => None,
    }
}

pub fn clone_opt_env(env: &Option<EnvMap>) -> (r: Option<EnvMap>)
    ensures
        opt_env(r) == opt_env(*env),
{
    match env {
        Some(m) => Some(clone_env(m)),
        None => None,
    }
}

/// The map that holds the pairs, put in one after the other.
pub open spec fn env_of(pairs: Seq<(Seq<char>, Seq<char>)>) -> Seq<(Seq<char>, Seq<char>)>
    decreases pairs.len(),
{
    if pairs.len() == 0 {
        Seq::empty()
    } else {
        lists::put(env_of(pairs.drop_last()), pairs.last().0, pairs.last().1)
    }
}

/// Collects variables into a map. A name that is given again keeps its first
/// place and its last value.
pub fn env_from(pairs: &Vec<(String, String)>) -> (r: EnvMap)
    ensures
        env_entries(r) == env_of(pair_views(pairs@)),
{
    let mut m = new_env();
    let ghost all = pair_views(pairs@);
    let mut i: usize = 0;
    proof {
        assert(env_entries(m) =~= env_of(all.take(0)));
    }
    while i < pairs.len()
        invariant
            i <= pairs@.len(),
            all == pair_views(pairs@),
            env_entries(m) == env_of(all.take(i as int)),
        decreases pairs@.len() - i,
    {
        let pair = &pairs[i];
        insert_env(&mut m, pair.0.clone(), pair.1.clone());
        proof {
            assert(all.take(i + 1).drop_last() =~= all.take(i as int));
            assert(all.take(i + 1).last() == (pair.0@, pair.1@));
        }
        i += 1;
    }
    assert(all.take(i as int) =~= all);
    m
}

// ---------------------------------------------------------------------------
// Values
// ---------------------------------------------------------------------------

/// How often a failed daemon is tried again; none by default.
#[derive(Debug, Clone, Copy, PartialEq, Eq, Structural)]
pub struct Retry(pub u32);

impl Retry {
    pub fn count(&self) -> (r: u32)
        ensures
            r == self.0,
    {
        self.0
    }
}

impl Default for Retry {
    fn default() -> (r: Self)
        ensures
            r == Retry(0),
    {
        Retry(0)
    }
}

/// How far an occupied port may be moved up; not at all by default.
#[derive(Debug, Clone, Copy, PartialEq, Eq, Structural)]
pub struct PortBump(pub u32);

impl Default for PortBump {
    fn default() -> (r: Self)
        ensures
            r == PortBump(0),
    {
        PortBump(0)
    }
}

/// When a directory hook starts or stops a daemon.
#[derive(Debug, Clone, Copy, PartialEq, Eq, Structural)]
pub enum PitchforkTomlAuto {
    Start,
    Stop,
}

/// What a cron trigger does while the previous run is there.
#[derive(Debug, Clone, Copy, PartialEq, Eq, Structural)]
pub enum CronRetrigger {
    Finish,
    Always,
    Success,
    Fail,
}

#[derive(Debug)]
pub struct PitchforkTomlCron {
    pub schedule: String,
    pub retrigger: CronRetrigger,
}

#[verifier::ext_equal]
pub struct CronView {
    pub schedule: Seq<char>,
    pub retrigger: CronRetrigger,
}

impl View for PitchforkTomlCron {
    type V = CronView;

    open spec fn view(&self) -> CronView {
        CronView { schedule: self.schedule@, retrigger: self.retrigger }
    }
}

impl Clone for PitchforkTomlCron {
    fn clone(&self) -> (r: Self)
        ensures
            r@ == self@,
    {
        PitchforkTomlCron { schedule: self.schedule.clone(), retrigger: self.retrigger }
    }
}

pub open spec fn opt_cron(c: Option<PitchforkTomlCron>) -> Option<CronView> {
    match c {
        Some(c) => Some(c@),
        None => None,
    }
}

fn clone_opt_cron(c: &Option<PitchforkTomlCron>) -> (r: Option<PitchforkTomlCron>)
    ensures
        opt_cron(r) == opt_cron(*c),
{
    match c {
        Some(c) => Some(c.clone()),
        None => None,
    }
}

/// An address that answers when a daemon is ready, and the status codes that
/// count as an answer.
#[derive(Debug)]
pub struct ReadyHttp {
    pub url: String,
    pub status: Vec<u16>,
}

#[verifier::ext_equal]
pub struct ReadyHttpView {
    pub url: Seq<char>,
    pub status: Seq<u16>,
}

impl View for ReadyHttp {
    type V = ReadyHttpView;

    open spec fn view(&self) -> ReadyHttpView {
        ReadyHttpView { url: self.url@, status: self.status@ }
    }
}

pub fn clone_numbers(v: &Vec<u16>) -> (r: Vec<u16>)
    ensures
        r@ == v@,
{
    let mut out: Vec<u16> = Vec::new();
    let mut i: usize = 0;
    while i < v.len()
        invariant
            i <= v@.len(),
            out@ == v@.take(i as int),
        decreases v@.len() - i,
    {
        out.push(v[i]);
        proof {
            assert(out@ =~= v@.take(i + 1));
        }
        i += 1;
    }
    assert(v@.take(i as int) =~= v@);
    out
}

impl Clone for ReadyHttp {
    fn clone(&self) -> (r: Self)
        ensures
            r@ == self@,
    {
        ReadyHttp { url: self.url.clone(), status: clone_numbers(&self.status) }
    }
}

impl ReadyHttp {
    /// An address at which any success is an answer.
    pub fn new(url: String) -> (r: Self)
        ensures
            r@ == (ReadyHttpView { url: url@, status: Seq::empty() }),
    {
        ReadyHttp { url, status: Vec::new() }
    }

    /// Whether a reply with the status code counts as an answer: one of the
    /// listed codes, or any from 200 to 299 where none is listed.
    pub fn accepts_status(&self, status: u16) -> (r: bool)
        ensures
            r == (if self@.status.len() == 0 {
                200 <= status <= 299
            } else {
                self@.status.contains(status)
            }),
    {
        if self.status.len() == 0 {
            return 200 <= status && status <= 299;
        }
        let mut i: usize = 0;
        while i < self.status.len()
            invariant
                i <= self.status@.len(),
                forall|k: int| 0 <= k < i ==> self.status@[k] != status,
            decreases self.status@.len() - i,
        {
            if self.status[i] == status {
                assert(self.status@[i as int] == status);
                return true;
            }
            i += 1;
        }
        false
    }
}

pub open spec fn opt_ready_http(h: Option<ReadyHttp>) -> Option<ReadyHttpView> {
    match h {
        Some(h) => Some(h@),
        None => None,
    }
}

pub fn clone_opt_ready_http(h: &Option<ReadyHttp>) -> (r: Option<ReadyHttp>)
    ensures
        opt_ready_http(r) == opt_ready_http(*h),
{
    match h {
        Some(h) => Some(h.clone()),
        None => None,
    }
}

/// The ports that a daemon binds to, and how far they may be moved up.
#[derive(Debug)]
pub struct PortConfig {
    pub expect: Vec<u16>,
    pub bump: PortBump,
}

#[verifier::ext_equal]
pub struct PortConfigView {
    pub expect: Seq<u16>,
    pub bump: PortBump,
}

impl View for PortConfig {
    type V = PortConfigView;

    open spec fn view(&self) -> PortConfigView {
        PortConfigView { expect: self.expect@, bump: self.bump }
    }
}

impl Clone for PortConfig {
    fn clone(&self) -> (r: Self)
        ensures
            r@ == self@,
    {
        PortConfig { expect: clone_numbers(&self.expect), bump: self.bump }
    }
}

impl Default for PortConfig {
    fn default() -> (r: Self)
        ensures
            r@ == (PortConfigView { expect: Seq::empty(), bump: PortBump(0) }),
    {
        PortConfig { expect: Vec::new(), bump: PortBump(0) }
    }
}

/// The port configuration that the two parts make up: none where neither
/// says anything.
pub open spec fn port_parts(expect: Seq<u16>, bump: PortBump) -> Option<PortConfigView> {
    if expect.len() == 0 && bump == PortBump(0) {
        None
    } else {
        Some(PortConfigView { expect, bump })
    }
}

impl PortConfig {
    pub fn from_parts(expect: Vec<u16>, bump: PortBump) -> (r: Option<PortConfig>)
        ensures
            opt_port(r) == port_parts(expect@, bump),
    {
        if expect.len() == 0 && bump.0 == 0 {
            None
        } else {
            Some(PortConfig { expect, bump })
        }
    }
}

pub open spec fn opt_port(p: Option<PortConfig>) -> Option<PortConfigView> {
    match p {
        Some(p) => Some(p@),
        None => None,
    }
}

pub fn clone_opt_port(p: &Option<PortConfig>) -> (r: Option<PortConfig>)
    ensures
        opt_port(r) == opt_port(*p),
{
    match p {
        Some(p) => Some(p.clone()),
        None => None,
    }
}

pub fn clone_auto(v: &Vec<PitchforkTomlAuto>) -> (r: Vec<PitchforkTomlAuto>)
    ensures
        r@ == v@,
{
    let mut out: Vec<PitchforkTomlAuto> = Vec::new();
    let mut i: usize = 0;
    while i < v.len()
        invariant
            i <= v@.len(),
            out@ == v@.take(i as int),
        decreases v@.len() - i,
    {
        out.push(v[i]);
        proof {
            assert(out@ =~= v@.take(i + 1));
        }
        i += 1;
    }
    assert(v@.take(i as int) =~= v@);
    out
}

// ---------------------------------------------------------------------------
// A daemon's section of a project file
// ---------------------------------------------------------------------------

#[derive(Debug)]
pub struct PitchforkTomlDaemon {
    /// The command line.
    pub run: String,
    /// The working directory; a relative one starts at the project directory.
    pub dir: Option<String>,
    pub env: Option<EnvMap>,
    pub auto: Vec<PitchforkTomlAuto>,
    pub retry: Retry,
    pub ready_delay: Option<u64>,
    pub ready_output: Option<String>,
    pub ready_http: Option<ReadyHttp>,
    pub ready_port: Option<u16>,
    pub ready_cmd: Option<String>,
    pub boot_start: Option<bool>,
    pub depends: Vec<DaemonId>,
    pub watch: Vec<String>,
    pub cron: Option<PitchforkTomlCron>,
    pub port: Option<PortConfig>,
    pub mise: Option<bool>,
    pub slug: Option<String>,
    pub proxy: Option<bool>,
    /// The file that holds the section.
    pub path: Option<String>,
}

#[verifier::ext_equal]
pub struct ConfigView {
    pub run: Seq<char>,
    pub dir: Option<Seq<char>>,
    pub env: Option<Seq<(Seq<char>, Seq<char>)>>,
    pub auto: Seq<PitchforkTomlAuto>,
    pub retry: Retry,
    pub ready_delay: Option<u64>,
    pub ready_output: Option<Seq<char>>,
    pub ready_http: Option<ReadyHttpView>,
    pub ready_port: Option<u16>,
    pub ready_cmd: Option<Seq<char>>,
    pub boot_start: Option<bool>,
    pub depends: Seq<IdView>,
    pub watch: Seq<Seq<char>>,
    pub cron: Option<CronView>,
    pub port: Option<PortConfigView>,
    pub mise: Option<bool>,
    pub slug: Option<Seq<char>>,
    pub proxy: Option<bool>,
    pub path: Option<Seq<char>>,
}

impl View for PitchforkTomlDaemon {
    type V = ConfigView;

    open spec fn view(&self) -> ConfigView {
        ConfigView {
            run: self.run@,
            dir: text::opt_view(self.dir),
            env: opt_env(self.env),
            auto: self.auto@,
            retry: self.retry,
            ready_delay: self.ready_delay,
            ready_output: text::opt_view(self.ready_output),
            ready_http: opt_ready_http(self.ready_http),
            ready_port: self.ready_port,
            ready_cmd: text::opt_view(self.ready_cmd),
            boot_start: self.boot_start,
            depends: daemon::id_views(self.depends@),
            watch: text::views(self.watch@),
            cron: opt_cron(self.cron),
            port: opt_port(self.port),
            mise: self.mise,
            slug: text::opt_view(self.slug),
            proxy: self.proxy,
            path: text::opt_view(self.path),
        }
    }
}

/// A section that says nothing.
pub open spec fn empty_config() -> ConfigView {
    ConfigView {
        run: Seq::empty(),
        dir: None,
        env: None,
        auto: Seq::empty(),
        retry: Retry(0),
        ready_delay: None,
        ready_output: None,
        ready_http: None,
        ready_port: None,
        ready_cmd: None,
        boot_start: None,
        depends: Seq::empty(),
        watch: Seq::empty(),
        cron: None,
        port: None,
        mise: None,
        slug: None,
        proxy: None,
        path: None,
    }
}

impl Default for PitchforkTomlDaemon {
    fn default() -> (r: Self)
        ensures
            r@ == empty_config(),
    {
        let r = PitchforkTomlDaemon {
            run: String::new(),
            dir: None,
            env: None,
            auto: Vec::new(),
            retry: Retry(0),
            ready_delay: None,
            ready_output: None,
            ready_http: None,
            ready_port: None,
            ready_cmd: None,
            boot_start: None,
            depends: Vec::new(),
            watch: Vec::new(),
            cron: None,
            port: None,
            mise: None,
            slug: None,
            proxy: None,
            path: None,
        };
        assert(r@ =~= empty_config());
        r
    }
}

impl Clone for PitchforkTomlDaemon {
    fn clone(&self) -> (r: Self)
        ensures
            r@ == self@,
    {
        PitchforkTomlDaemon {
            run: self.run.clone(),
            dir: clone_opt(&self.dir),
            env: clone_opt_env(&self.env),
            auto: clone_auto(&self.auto),
            retry: self.retry,
            ready_delay: self.ready_delay,
            ready_output: clone_opt(&self.ready_output),
            ready_http: clone_opt_ready_http(&self.ready_http),
            ready_port: self.ready_port,
            ready_cmd: clone_opt(&self.ready_cmd),
            boot_start: self.boot_start,
            depends: clone_ids(&self.depends),
            watch: clone_strings(&self.watch),
            cron: clone_opt_cron(&self.cron),
            port: clone_opt_port(&self.port),
            mise: self.mise,
            slug: clone_opt(&self.slug),
            proxy: self.proxy,
            path: clone_opt(&self.path),
        }
    }
}

/// Borrows an optional text.
pub fn borrow_opt(s: &Option<String>) -> (r: Option<&str>)
    ensures
        paths::opt_str(r) == text::opt_view(*s),
{
    match s {
        Some(s) => Some(s.as_str()),
        None => None,
    }
}

impl PitchforkTomlDaemon {
    /// What the section asks of the supervisor when the daemon is started with
    /// the command. Relative paths are seen from the project directory.
    pub fn to_run_options(&self, id: &DaemonId, cmd: Vec<String>, at: &Locations) -> (r: RunOptions)
        ensures
            r@ == configured_run(id@, self@, text::views(cmd@), *at),
    {
        let config_path = borrow_opt(&self.path);
        RunOptions {
            id: id.clone(),
            cmd,
            shell_pid: None,
            force: false,
            dir: Dir(resolve_daemon_dir(borrow_opt(&self.dir), config_path, at)),
            auto: clone_auto(&self.auto),
            cron: clone_opt_cron(&self.cron),
            retry: self.retry,
            ready_delay: self.ready_delay,
            ready_output: clone_opt(&self.ready_output),
            ready_http: clone_opt_ready_http(&self.ready_http),
            ready_port: self.ready_port,
            ready_cmd: clone_opt(&self.ready_cmd),
            port: clone_opt_port(&self.port),
            wait_ready: false,
            depends: clone_ids(&self.depends),
            env: clone_opt_env(&self.env),
            watch: clone_strings(&self.watch),
            watch_base_dir: Some(resolve_config_base_dir(config_path, at)),
            mise: self.mise,
            slug: clone_opt(&self.slug),
            proxy: self.proxy,
        }
    }
}

// ---------------------------------------------------------------------------
// A request to run a daemon
// ---------------------------------------------------------------------------

/// A working directory.
#[derive(Debug)]
pub struct Dir(pub String);

/// What the supervisor is asked to run.
#[derive(Debug)]
pub struct RunOptions {
    pub id: DaemonId,
    pub cmd: Vec<String>,
    pub shell_pid: Option<u32>,
    pub force: bool,
    pub dir: Dir,
    pub auto: Vec<PitchforkTomlAuto>,
    pub cron: Option<PitchforkTomlCron>,
    pub retry: Retry,
    pub ready_delay: Option<u64>,
    pub ready_output: Option<String>,
    pub ready_http: Option<ReadyHttp>,
    pub ready_port: Option<u16>,
    pub ready_cmd: Option<String>,
    pub port: Option<PortConfig>,
    pub wait_ready: bool,
    pub depends: Vec<DaemonId>,
    pub env: Option<EnvMap>,
    pub watch: Vec<String>,
    pub watch_base_dir: Option<String>,
    pub mise: Option<bool>,
    pub slug: Option<String>,
    pub proxy: Option<bool>,
}

#[verifier::ext_equal]
pub struct RunView {
    pub id: IdView,
    pub cmd: Seq<Seq<char>>,
    pub shell_pid: Option<u32>,
    pub force: bool,
    pub dir: Seq<char>,
    pub auto: Seq<PitchforkTomlAuto>,
    pub cron: Option<CronView>,
    pub retry: Retry,
    pub ready_delay: Option<u64>,
    pub ready_output: Option<Seq<char>>,
    pub ready_http: Option<ReadyHttpView>,
    pub ready_port: Option<u16>,
    pub ready_cmd: Option<Seq<char>>,
    pub port: Option<PortConfigView>,
    pub wait_ready: bool,
    pub depends: Seq<IdView>,
    pub env: Option<Seq<(Seq<char>, Seq<char>)>>,
    pub watch: Seq<Seq<char>>,
    pub watch_base_dir: Option<Seq<char>>,
    pub mise: Option<bool>,
    pub slug: Option<Seq<char>>,
    pub proxy: Option<bool>,
}

impl View for RunOptions {
    type V = RunView;

    open spec fn view(&self) -> RunView {
        RunView {
            id: self.id@,
            cmd: text::views(self.cmd@),
            shell_pid: self.shell_pid,
            force: self.force,
            dir: self.dir.0@,
            auto: self.auto@,
            cron: opt_cron(self.cron),
            retry: self.retry,
            ready_delay: self.ready_delay,
            ready_output: text::opt_view(self.ready_output),
            ready_http: opt_ready_http(self.ready_http),
            ready_port: self.ready_port,
            ready_cmd: text::opt_view(self.ready_cmd),
            port: opt_port(self.port),
            wait_ready: self.wait_ready,
            depends: daemon::id_views(self.depends@),
            env: opt_env(self.env),
            watch: text::views(self.watch@),
            watch_base_dir: text::opt_view(self.watch_base_dir),
            mise: self.mise,
            slug: text::opt_view(self.slug),
            proxy: self.proxy,
        }
    }
}

/// The request that a daemon's section makes.
pub open spec fn configured_run(
    id: IdView,
    c: ConfigView,
    cmd: Seq<Seq<char>>,
    at: Locations,
) -> RunView {
    RunView {
        id,
        cmd,
        shell_pid: None,
        force: false,
        dir: paths::daemon_dir(c.dir, c.path, at),
        auto: c.auto,
        cron: c.cron,
        retry: c.retry,
        ready_delay: c.ready_delay,
        ready_output: c.ready_output,
        ready_http: c.ready_http,
        ready_port: c.ready_port,
        ready_cmd: c.ready_cmd,
        port: c.port,
        wait_ready: false,
        depends: c.depends,
        env: c.env,
        watch: c.watch,
        watch_base_dir: Some(paths::config_base(c.path, at)),
        mise: c.mise,
        slug: c.slug,
        proxy: c.proxy,
    }
}

// ---------------------------------------------------------------------------
// Project files
// ---------------------------------------------------------------------------

/// The daemons that a map of sections holds, in its order.
pub uninterp spec fn daemon_entries(
    m: IndexMap<(String, String), PitchforkTomlDaemon>,
) -> Seq<(IdView, ConfigView)>;

/// `IndexMap::new`: a map that holds nothing.
#[verifier::external_body]
fn new_daemons() -> (r: IndexMap<(String, String), PitchforkTomlDaemon>)
    ensures
        daemon_entries(r) == Seq::<(IdView, ConfigView)>::empty(),
{
    IndexMap::new()
}

/// `IndexMap::contains_key`: whether there is a section for the daemon.
#[verifier::external_body]
fn has_daemon(m: &IndexMap<(String, String), PitchforkTomlDaemon>, id: &DaemonId) -> (r: bool)
    ensures
        r == lists::keys(daemon_entries(*m)).contains(id@),
{
    m.contains_key(&(id.namespace.clone(), id.name.clone()))
}

/// `IndexMap::get`: the daemon's section, where there is one.
#[verifier::external_body]
fn get_daemon<'a>(
    m: &'a IndexMap<(String, String), PitchforkTomlDaemon>,
    id: &DaemonId,
) -> (r: Option<&'a PitchforkTomlDaemon>)
    ensures
        match r {
            Some(c) => lists::lookup(daemon_entries(*m), id@) == Some(c@),
            None => lists::lookup(daemon_entries(*m), id@) is None,
        },
{
    m.get(&(id.namespace.clone(), id.name.clone()))
}

/// `IndexMap::insert`: a daemon that is there keeps its place and gets the new
/// section; another becomes the last.
#[verifier::external_body]
fn insert_daemon(
    m: &mut IndexMap<(String, String), PitchforkTomlDaemon>,
    id: &DaemonId,
    section: PitchforkTomlDaemon,
)
    ensures
        daemon_entries(*final(m)) == lists::put(daemon_entries(*old(m)), id@, section@),
{
    m.insert((id.namespace.clone(), id.name.clone()), section);
}

/// `IndexMap::shift_remove`: takes the daemon's section out and says whether
/// there was one; the others stay in order.
#[verifier::external_body]
fn remove_daemon(
    m: &mut IndexMap<(String, String), PitchforkTomlDaemon>,
    id: &DaemonId,
) -> (r: bool)
    ensures
        r == lists::keys(daemon_entries(*old(m))).contains(id@),
        daemon_entries(*final(m)) == lists::without_key(daemon_entries(*old(m)), id@),
{
    m.shift_remove(&(id.namespace.clone(), id.name.clone())).is_some()
}

/// `IndexMap::keys`: the daemons in the map's order, none twice.
#[verifier::external_body]
fn daemon_keys(m: &IndexMap<(String, String), PitchforkTomlDaemon>) -> (r: Vec<DaemonId>)
    ensures
        daemon::id_views(r@) == lists::keys(daemon_entries(*m)),
        daemon::id_views(r@).no_duplicates(),
{
    m.keys().map(|k| DaemonId { namespace: k.0.clone(), name: k.1.clone() }).collect()
}

/// The daemons of one or more project files.
#[derive(Debug)]
pub struct PitchforkToml {
    pub daemons: IndexMap<(String, String), PitchforkTomlDaemon>,
}

impl View for PitchforkToml {
    type V = Seq<(IdView, ConfigView)>;

    open spec fn view(&self) -> Seq<(IdView, ConfigView)> {
        daemon_entries(self.daemons)
    }
}

impl PitchforkToml {
    pub fn new() -> (r: Self)
        ensures
            r@ == Seq::<(IdView, ConfigView)>::empty(),
    {
        PitchforkToml { daemons: new_daemons() }
    }

    pub fn contains(&self, id: &DaemonId) -> (r: bool)
        ensures
            r == lists::keys(self@).contains(id@),
    {
        has_daemon(&self.daemons, id)
    }

    pub fn get(&self, id: &DaemonId) -> (r: Option<&PitchforkTomlDaemon>)
        ensures
            match r {
                Some(c) => lists::lookup(self@, id@) == Some(c@),
                None => lists::lookup(self@, id@) is None,
            },
    {
        get_daemon(&self.daemons, id)
    }

    pub fn insert(&mut self, id: &DaemonId, section: PitchforkTomlDaemon)
        ensures
            final(self)@ == lists::put(old(self)@, id@, section@),
    {
        insert_daemon(&mut self.daemons, id, section);
    }

    pub fn remove(&mut self, id: &DaemonId) -> (r: bool)
        ensures
            r == lists::keys(old(self)@).contains(id@),
            final(self)@ == lists::without_key(old(self)@, id@),
    {
        remove_daemon(&mut self.daemons, id)
    }

    /// The daemons that are configured, in order.
    pub fn ids(&self) -> (r: Vec<DaemonId>)
        ensures
            daemon::id_views(r@) == lists::keys(self@),
            daemon::id_views(r@).no_duplicates(),
    {
        daemon_keys(&self.daemons)
    }
}

// ---------------------------------------------------------------------------
// Laws
// ---------------------------------------------------------------------------

/// Every part of a section comes into the request as it is. Its directory is
/// seen from the project directory, and so is what is watched; nothing is
/// forced, no shell is named, and nobody waits yet.
pub proof fn law_requests_are_as_configured(
    id: IdView,
    c: ConfigView,
    cmd: Seq<Seq<char>>,
    at: Locations,
)
    ensures
        ({
            let r = configured_run(id, c, cmd, at);
            &&& r.id == id
            &&& r.cmd == cmd
            &&& r.auto == c.auto
            &&& r.cron == c.cron
            &&& r.retry == c.retry
            &&& r.ready_delay == c.ready_delay
            &&& r.ready_output == c.ready_output
            &&& r.ready_http == c.ready_http
            &&& r.ready_port == c.ready_port
            &&& r.ready_cmd == c.ready_cmd
            &&& r.port == c.port
            &&& r.depends == c.depends
            &&& r.env == c.env
            &&& r.watch == c.watch
            &&& r.mise == c.mise
            &&& r.slug == c.slug
            &&& r.proxy == c.proxy
            &&& r.watch_base_dir == Some(paths::config_base(c.path, at))
            &&& c.dir is None ==> r.dir == paths::config_base(c.path, at)
            &&& c.dir matches Some(dir) ==> r.dir == paths::joined_path(
                paths::config_base(c.path, at),
                dir,
            )
            &&& !r.force && r.shell_pid is None && !r.wait_ready
        }),
{
}

/// The parts of a port configuration come back from it; there is none exactly
/// where neither part says anything.
pub proof fn law_port_parts_come_back(expect: Seq<u16>, bump: PortBump)
    ensures
        port_parts(expect, bump) is None <==> expect.len() == 0 && bump == PortBump(0),
        port_parts(expect, bump) matches Some(p) ==> p.expect == expect && p.bump == bump,
{
}

/// A variable that is given several times has its last value, and no variable
/// occurs twice.
pub proof fn law_the_last_value_counts(pairs: Seq<(Seq<char>, Seq<char>)>, key: Seq<char>)
    ensures
        lists::lookup(env_of(pairs), key) == lists::lookup(pairs, key),
        lists::keys(env_of(pairs)).no_duplicates(),
        lists::keys(pairs).no_duplicates() ==> env_of(pairs) == pairs,
    decreases pairs.len(),
{
    if pairs.len() > 0 {
        let rest = pairs.drop_last();
        let before = env_of(rest);
        let k = pairs.last().0;
        let v = pairs.last().1;
        law_the_last_value_counts(rest, key);
        lists::lemma_lookup_put(before, k, v, key);
        if lists::keys(before).contains(k) {
            assert(lists::keys(lists::put(before, k, v)) =~= lists::keys(before));
        } else {
            assert(lists::keys(lists::put(before, k, v)) =~= lists::keys(before).push(k));
            lists::lemma_push_distinct(lists::keys(before), k);
        }
        assert(lists::keys(pairs) =~= lists::keys(rest).push(k));
        if lists::keys(pairs).no_duplicates() {
            let all = lists::keys(pairs);
            assert forall|i: int, j: int|
                0 <= i < rest.len() && 0 <= j < rest.len() && i != j implies lists::keys(rest)[i]
                != lists::keys(rest)[j] by {
                assert(all[i] != all[j]);
            }
            if lists::keys(rest).contains(k) {
                let i = choose|i: int| 0 <= i < rest.len() && lists::keys(rest)[i] == k;
                assert(all[i] != all[rest.len() as int]);
            }
            assert(env_of(pairs) =~= pairs);
        }
    } else {
        assert(env_of(pairs) =~= pairs);
    }
}

/// Every part of a section is seen.
pub proof fn law_sections_are_seen_whole(c: PitchforkTomlDaemon)
    ensures
        c@.run == c.run@,
        c.dir is Some ==> c@.dir == Some(c.dir->0@),
        c.dir is None ==> c@.dir is None,
        c.env is Some ==> c@.env == Some(env_entries(c.env->0)),
        c.env is None ==> c@.env is None,
        c@.auto == c.auto@,
        c@.retry == c.retry,
        c@.ready_delay == c.ready_delay,
        c.ready_output is Some ==> c@.ready_output == Some(c.ready_output->0@),
        c.ready_output is None ==> c@.ready_output is None,
        c.ready_http is Some ==> c@.ready_http is Some && c@.ready_http->0.url
            == c.ready_http->0.url@ && c@.ready_http->0.status == c.ready_http->0.status@,
        c.ready_http is None ==> c@.ready_http is None,
        c@.ready_port == c.ready_port,
        c.ready_cmd is Some ==> c@.ready_cmd == Some(c.ready_cmd->0@),
        c.ready_cmd is None ==> c@.ready_cmd is None,
        c@.boot_start == c.boot_start,
        c@.depends == c.depends@.map_values(|id: DaemonId| id@),
        c@.watch == c.watch@.map_values(|s: String| s@),
        c.cron is Some ==> c@.cron is Some && c@.cron->0.schedule == c.cron->0.schedule@
            && c@.cron->0.retrigger == c.cron->0.retrigger,
        c.cron is None ==> c@.cron is None,
        c.port is Some ==> c@.port is Some && c@.port->0.expect == c.port->0.expect@
            && c@.port->0.bump == c.port->0.bump,
        c.port is None ==> c@.port is None,
        c@.mise == c.mise,
        c.slug is Some ==> c@.slug == Some(c.slug->0@),
        c.slug is None ==> c@.slug is None,
        c@.proxy == c.proxy,
        c.path is Some ==> c@.path == Some(c.path->0@),
        c.path is None ==> c@.path is None,
{
}

/// Every part of a request is seen.
pub proof fn law_requests_are_seen_whole(r: RunOptions)
    ensures
        r@.id == r.id@,
        r@.cmd == r.cmd@.map_values(|s: String| s@),
        r@.shell_pid == r.shell_pid,
        r@.force == r.force,
        r@.dir == r.dir.0@,
        r@.auto == r.auto@,
        r.cron is Some ==> r@.cron is Some && r@.cron->0.schedule == r.cron->0.schedule@
            && r@.cron->0.retrigger == r.cron->0.retrigger,
        r.cron is None ==> r@.cron is None,
        r@.retry == r.retry,
        r@.ready_delay == r.ready_delay,
        r.ready_output is Some ==> r@.ready_output == Some(r.ready_output->0@),
        r.ready_output is None ==> r@.ready_output is None,
        r.ready_http is Some ==> r@.ready_http is Some && r@.ready_http->0.url
            == r.ready_http->0.url@ && r@.ready_http->0.status == r.ready_http->0.status@,
        r.ready_http is None ==> r@.ready_http is None,
        r@.ready_port == r.ready_port,
        r.ready_cmd is Some ==> r@.ready_cmd == Some(r.ready_cmd->0@),
        r.ready_cmd is None ==> r@.ready_cmd is None,
        r.port is Some ==> r@.port is Some && r@.port->0.expect == r.port->0.expect@
            && r@.port->0.bump == r.port->0.bump,
        r.port is None ==> r@.port is None,
        r@.wait_ready == r.wait_ready,
        r@.depends == r.depends@.map_values(|id: DaemonId| id@),
        r.env is Some ==> r@.env == Some(env_entries(r.env->0)),
        r.env is None ==> r@.env is None,
        r@.watch == r.watch@.map_values(|s: String| s@),
        r.watch_base_dir is Some ==> r@.watch_base_dir == Some(r.watch_base_dir->0@),
        r.watch_base_dir is None ==> r@.watch_base_dir is None,
        r@.mise == r.mise,
        r.slug is Some ==> r@.slug == Some(r.slug->0@),
        r.slug is None ==> r@.slug is None,
        r@.proxy == r.proxy,
{
}

/// A section that says nothing says nothing of any part.
pub proof fn law_empty_sections_say_nothing()
    ensures
        ({
            let c = empty_config();
            &&& c.run.len() == 0 && c.dir is None && c.env is None && c.auto.len() == 0
            &&& c.retry == Retry(0) && c.ready_delay is None && c.ready_output is None
            &&& c.ready_http is None && c.ready_port is None && c.ready_cmd is None
            &&& c.boot_start is None && c.depends.len() == 0 && c.watch.len() == 0 && c.cron is None
            &&& c.port is None && c.mise is None && c.slug is None && c.proxy is None && c.path
                is None
        }),
{
}

} // verus!
