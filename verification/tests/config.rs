use indexmap::IndexMap;
use pitchfork::config::{
    env_from, CronRetrigger, PitchforkToml, PitchforkTomlAuto, PitchforkTomlCron,
    PitchforkTomlDaemon, PortBump, PortConfig, ReadyHttp, Retry,
};
use pitchfork::daemon::{clone_ids, contains_id, DaemonId, DaemonStatus, IdSet, ProcessStats};
use pitchfork::idmap::IdMap;
use pitchfork::ports::PortMap;
use pitchfork::stats::{HistoryMap, StatsHistory, StatsSnapshot};

fn id(name: &str) -> DaemonId {
    DaemonId::new("p", name)
}

fn section(run: &str) -> PitchforkTomlDaemon {
    let mut c = PitchforkTomlDaemon::default();
    c.run = run.to_string();
    c
}

fn names(pt: &PitchforkToml) -> Vec<String> {
    pt.ids().iter().map(|i| i.qualified()).collect()
}

#[test]
fn variables_keep_their_first_place_and_their_last_value() {
    let pairs: Vec<(String, String)> = [("B", "1"), ("A", "2"), ("B", "3")]
        .iter()
        .map(|(k, v)| (k.to_string(), v.to_string()))
        .collect();
    let env = env_from(&pairs);
    let mut expected: IndexMap<String, String> = IndexMap::new();
    expected.insert("B".to_string(), "3".to_string());
    expected.insert("A".to_string(), "2".to_string());
    assert_eq!(env, expected);
    assert_eq!(env.get_index(0).unwrap().0, "B");
    assert!(env_from(&Vec::new()).is_empty());
}

#[test]
fn sections_keep_their_order() {
    let mut pt = PitchforkToml::new();
    assert!(pt.ids().is_empty());
    pt.insert(&id("c"), section("1"));
    pt.insert(&id("a"), section("2"));
    pt.insert(&id("b"), section("3"));
    assert_eq!(names(&pt), vec!["p/c", "p/a", "p/b"]);
    pt.insert(&id("a"), section("4"));
    assert_eq!(names(&pt), vec!["p/c", "p/a", "p/b"]);
    assert_eq!(pt.get(&id("a")).unwrap().run, "4");
    assert!(pt.get(&id("x")).is_none());
    assert!(pt.contains(&id("b")));
    assert!(!pt.contains(&DaemonId::new("q", "b")));
    assert!(pt.remove(&id("c")));
    assert!(!pt.remove(&id("c")));
    assert_eq!(names(&pt), vec!["p/a", "p/b"]);
}

#[test]
fn a_copy_of_a_section_says_the_same() {
    let mut c = section("run me");
    c.dir = Some("d".to_string());
    c.env = Some(env_from(&vec![("K".to_string(), "V".to_string())]));
    c.auto = vec![PitchforkTomlAuto::Start, PitchforkTomlAuto::Stop];
    c.retry = Retry(3);
    c.ready_delay = Some(1);
    c.ready_output = Some("o".to_string());
    c.ready_http = Some(ReadyHttp { url: "u".to_string(), status: vec![1, 2] });
    c.ready_port = Some(3);
    c.ready_cmd = Some("c".to_string());
    c.boot_start = Some(true);
    c.depends = vec![id("db")];
    c.watch = vec!["w".to_string()];
    c.cron = Some(PitchforkTomlCron {
        schedule: "* * * * *".to_string(),
        retrigger: CronRetrigger::Fail,
    });
    c.port = Some(PortConfig { expect: vec![4], bump: PortBump(5) });
    c.mise = Some(true);
    c.slug = Some("s".to_string());
    c.proxy = Some(false);
    c.path = Some("/p".to_string());
    assert_eq!(format!("{:?}", c.clone()), format!("{c:?}"));
}

#[test]
fn defaults_say_nothing() {
    let c = PitchforkTomlDaemon::default();
    assert_eq!(c.run, "");
    assert_eq!(c.retry.count(), 0);
    assert!(c.env.is_none() && c.port.is_none() && c.cron.is_none() && c.path.is_none());
    assert_eq!(Retry::default(), Retry(0));
    assert_eq!(PortBump::default(), PortBump(0));
    assert!(PortConfig::default().expect.is_empty());
    assert!(PortConfig::from_parts(Vec::new(), PortBump(0)).is_none());
    assert_eq!(PortConfig::from_parts(vec![1], PortBump(0)).unwrap().expect, vec![1]);
    assert_eq!(PortConfig::from_parts(Vec::new(), PortBump(2)).unwrap().bump, PortBump(2));
}

#[test]
fn identifiers_are_compared_by_both_parts() {
    let a = DaemonId::new("x", "y");
    assert_eq!(a.qualified(), "x/y");
    assert_eq!(a.namespace(), "x");
    assert!(a.same(&a.clone()));
    assert!(!a.same(&DaemonId::new("x", "z")));
    assert!(!a.same(&DaemonId::new("w", "y")));
    let all = vec![a.clone(), id("b")];
    assert!(contains_id(&all, &a));
    assert!(!contains_id(&all, &id("c")));
    assert_eq!(clone_ids(&all).len(), 2);
}

#[test]
fn sets_hold_nothing_twice() {
    let mut set = IdSet::new();
    assert_eq!(set.len(), 0);
    set.insert(id("a"));
    set.insert(id("b"));
    set.insert(id("a"));
    assert_eq!(set.len(), 2);
    assert!(set.contains(&id("a")));
    set.remove(&id("a"));
    set.remove(&id("zzz"));
    assert_eq!(set.to_vec().iter().map(|i| i.qualified()).collect::<Vec<_>>(), vec!["p/b"]);
    set.clear();
    assert_eq!(set.len(), 0);
    assert!(!set.contains(&id("b")));
}

#[test]
fn ports_are_noted_by_daemon() {
    let mut ports = PortMap::new();
    assert!(ports.get(&id("a")).is_none());
    ports.insert(&id("a"), vec![1]);
    ports.insert(&id("b"), vec![2]);
    ports.insert(&id("a"), vec![3, 4]);
    assert_eq!(ports.get(&id("a")), Some(vec![3, 4]));
    assert_eq!(ports.get(&id("b")), Some(vec![2]));
}

fn snapshot(n: u64) -> StatsSnapshot {
    StatsSnapshot {
        cpu_bits: (n as f32).to_bits(),
        memory_bytes: n,
        disk_read_bytes: n + 1,
        disk_write_bytes: n + 2,
    }
}

#[test]
fn histories_keep_the_newest_snapshots() {
    let mut h = StatsHistory::default();
    for n in 0..5 {
        h.push(snapshot(n), 3);
    }
    assert_eq!(h.memory_values(), vec![2, 3, 4]);
    assert_eq!(h.disk_read_values(), vec![3, 4, 5]);
    assert_eq!(h.disk_write_values(), vec![4, 5, 6]);
    let cpu: Vec<f32> = h.cpu_values().into_iter().map(f32::from_bits).collect();
    assert_eq!(cpu, vec![2.0, 3.0, 4.0]);
    h.push(snapshot(9), 1);
    assert_eq!(h.memory_values(), vec![9]);
    h.push(snapshot(10), 0);
    assert_eq!(h.memory_values(), vec![10]);
    h.push(snapshot(11), -5);
    assert_eq!(h.memory_values(), vec![11]);
}

#[test]
fn histories_are_kept_by_daemon() {
    let mut all = HistoryMap::new();
    assert!(all.get(&id("a")).is_none());
    all.record(&id("a"), snapshot(1), 2);
    all.record(&id("b"), snapshot(2), 2);
    all.record(&id("a"), snapshot(3), 2);
    all.record(&id("a"), snapshot(4), 2);
    assert_eq!(all.get(&id("a")).unwrap().memory_values(), vec![3, 4]);
    assert_eq!(all.get(&id("b")).unwrap().memory_values(), vec![2]);
}

#[test]
fn processor_shares_order_like_numbers() {
    let order = |x: f32| {
        ProcessStats {
            cpu_bits: x.to_bits(),
            memory_bytes: 0,
            uptime_secs: 0,
            disk_read_bytes: 0,
            disk_write_bytes: 0,
        }
        .cpu_order()
    };
    let values = [
        f32::NEG_INFINITY, -3.5, -0.1, -0.0, 0.0, 1e-40, 0.5, 1.0, 99.9, 100.0, 800.0,
        f32::INFINITY,
    ];
    for a in values {
        for b in values {
            assert_eq!(order(a).unwrap() < order(b).unwrap(), a < b, "{a} {b}");
            assert_eq!(order(a) == order(b), a == b, "{a} {b}");
        }
    }
    assert!(order(f32::NAN).is_none());
    assert!(order(-f32::NAN).is_none());
}

#[test]
fn states_are_told_apart() {
    assert!(DaemonStatus::Running.is_running());
    assert!(DaemonStatus::Waiting.is_waiting());
    assert!(DaemonStatus::Stopped.is_stopped());
    assert!(DaemonStatus::Errored(1).is_errored());
    assert!(DaemonStatus::Failed("x".to_string()).is_failed());
    assert!(!DaemonStatus::Stopping.is_stopped());
    assert!(!DaemonStatus::Waiting.is_running());
}

#[test]
fn snapshots_keep_what_the_charts_need() {
    let stats = ProcessStats {
        cpu_bits: 12.5f32.to_bits(),
        memory_bytes: 1,
        uptime_secs: 2,
        disk_read_bytes: 3,
        disk_write_bytes: 4,
    };
    let s = StatsSnapshot::from(&stats);
    assert_eq!(f32::from_bits(s.cpu_bits), 12.5);
    assert_eq!((s.memory_bytes, s.disk_read_bytes, s.disk_write_bytes), (1, 3, 4));
}

#[test]
fn a_value_that_is_replaced_is_handed_back() {
    let mut values = IdMap::new();
    assert_eq!(values.insert(&id("a"), 1), None);
    assert_eq!(values.insert(&id("b"), 2), None);
    assert_eq!(values.insert(&id("a"), 3), Some(1));
    assert_eq!((values.get(&id("a")), values.get(&id("b"))), (Some(&3), Some(&2)));
    assert_eq!(values.get(&id("c")), None);
}
