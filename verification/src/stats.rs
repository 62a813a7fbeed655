//! What daemons used over time.
use std::collections::VecDeque;
use vstd::prelude::*;

use crate::daemon::{DaemonId, IdView, ProcessStats};
use crate::idmap::IdMap;

verus! {

/// What a process used at one time.
#[derive(Debug, Clone, Copy)]
pub struct StatsSnapshot {
    /// The share of the processor in percent, as the bits of an IEEE 754
    /// single-precision number.
    pub cpu_bits: u32,
    pub memory_bytes: u64,
    pub disk_read_bytes: u64,
    pub disk_write_bytes: u64,
}

/// What a snapshot keeps of a process's figures.
pub open spec fn snapshot_of(stats: ProcessStats) -> StatsSnapshot {
    StatsSnapshot {
        cpu_bits: stats.cpu_bits,
        memory_bytes: stats.memory_bytes,
        disk_read_bytes: stats.disk_read_bytes,
        disk_write_bytes: stats.disk_write_bytes,
    }
}

impl From<&ProcessStats> for StatsSnapshot {
    fn from(stats: &ProcessStats) -> (r: Self) {
        StatsSnapshot {
            cpu_bits: stats.cpu_bits,
            memory_bytes: stats.memory_bytes,
            disk_read_bytes: stats.disk_read_bytes,
            disk_write_bytes: stats.disk_write_bytes,
        }
    }
}

impl vstd::std_specs::convert::FromSpecImpl<&ProcessStats> for StatsSnapshot {
    open spec fn obeys_from_spec() -> bool {
        true
    }

    open spec fn from_spec(stats: &ProcessStats) -> StatsSnapshot {
        snapshot_of(*stats)
    }
}

/// The last snapshots of a daemon, oldest first.
#[derive(Debug, Clone)]
pub struct StatsHistory {
    pub samples: VecDeque<StatsSnapshot>,
}

impl View for StatsHistory {
    type V = Seq<StatsSnapshot>;

    open spec fn view(&self) -> Seq<StatsSnapshot> {
        self.samples@
    }
}

/// How many snapshots the setting keeps: as many as it says, and at least one.
pub open spec fn history_limit(setting: i64) -> usize {
    if setting < 1 {
        1
    } else {
        setting as usize
    }
}

/// The last `n` items.
pub open spec fn newest(samples: Seq<StatsSnapshot>, n: int) -> Seq<StatsSnapshot> {
    if samples.len() > n {
        samples.skip(samples.len() - n)
    } else {
        samples
    }
}

impl Default for StatsHistory {
    fn default() -> (r: Self)
        ensures
            r@ == Seq::<StatsSnapshot>::empty(),
    {
        StatsHistory { samples: VecDeque::new() }
    }
}

impl StatsHistory {
    /// Adds a snapshot and drops the oldest beyond the limit of the setting.
    pub fn push(&mut self, snapshot: StatsSnapshot, stat_history: i64)
        ensures
            final(self)@ == newest(old(self)@.push(snapshot), history_limit(stat_history) as int),
    {
        self.samples.push_back(snapshot);
        let max: usize = if stat_history < 1 {
            1
        } else {
            stat_history as usize
        };
        let ghost all = self.samples@;
        let ghost mut dropped: int = 0;
        proof {
            assert(all.skip(0) =~= all);
        }
        while self.samples.len() > max
            invariant
                0 <= dropped <= all.len(),
                self.samples@ == all.skip(dropped),
                dropped > 0 ==> self.samples@.len() >= max,
            decreases self.samples@.len(),
        {
            let _ = self.samples.pop_front();
            proof {
                assert(self.samples@ =~= all.skip(dropped + 1));
                dropped = dropped + 1;
            }
        }
        assert(self.samples@ =~= newest(all, max as int));
    }

    pub fn cpu_values(&self) -> (r: Vec<u32>)
        ensures
            r@ == self@.map_values(|s: StatsSnapshot| s.cpu_bits),
    {
        let mut out: Vec<u32> = Vec::new();
        let mut i: usize = 0;
        while i < self.samples.len()
            invariant
                i <= self.samples@.len(),
                out@ == self@.take(i as int).map_values(|s: StatsSnapshot| s.cpu_bits),
            decreases self.samples@.len() - i,
        {
            out.push(self.samples[i].cpu_bits);
            proof {
                assert(out@ =~= self@.take(i + 1).map_values(|s: StatsSnapshot| s.cpu_bits));
            }
            i += 1;
        }
        assert(self@.take(i as int) =~= self@);
        out
    }

    pub fn memory_values(&self) -> (r: Vec<u64>)
        ensures
            r@ == self@.map_values(|s: StatsSnapshot| s.memory_bytes),
    {
        let mut out: Vec<u64> = Vec::new();
        let mut i: usize = 0;
        while i < self.samples.len()
            invariant
                i <= self.samples@.len(),
                out@ == self@.take(i as int).map_values(|s: StatsSnapshot| s.memory_bytes),
            decreases self.samples@.len() - i,
        {
            out.push(self.samples[i].memory_bytes);
            proof {
                assert(out@ =~= self@.take(i + 1).map_values(|s: StatsSnapshot| s.memory_bytes));
            }
            i += 1;
        }
        assert(self@.take(i as int) =~= self@);
        out
    }

    pub fn disk_read_values(&self) -> (r: Vec<u64>)
        ensures
            r@ == self@.map_values(|s: StatsSnapshot| s.disk_read_bytes),
    {
        let mut out: Vec<u64> = Vec::new();
        let mut i: usize = 0;
        while i < self.samples.len()
            invariant
                i <= self.samples@.len(),
                out@ == self@.take(i as int).map_values(|s: StatsSnapshot| s.disk_read_bytes),
            decreases self.samples@.len() - i,
        {
            out.push(self.samples[i].disk_read_bytes);
            proof {
                assert(out@ =~= self@.take(i + 1).map_values(|s: StatsSnapshot| s.disk_read_bytes));
            }
            i += 1;
        }
        assert(self@.take(i as int) =~= self@);
        out
    }

    pub fn disk_write_values(&self) -> (r: Vec<u64>)
        ensures
            r@ == self@.map_values(|s: StatsSnapshot| s.disk_write_bytes),
    {
        let mut out: Vec<u64> = Vec::new();
        let mut i: usize = 0;
        while i < self.samples.len()
            invariant
                i <= self.samples@.len(),
                out@ == self@.take(i as int).map_values(|s: StatsSnapshot| s.disk_write_bytes),
            decreases self.samples@.len() - i,
        {
            out.push(self.samples[i].disk_write_bytes);
            proof {
                assert(out@ =~= self@.take(i + 1).map_values(
                    |s: StatsSnapshot| s.disk_write_bytes,
                ));
            }
            i += 1;
        }
        assert(self@.take(i as int) =~= self@);
        out
    }
}

/// After a push the history holds the new snapshot last and stays within its limit.
pub proof fn law_history_is_bounded(
    samples: Seq<StatsSnapshot>,
    snapshot: StatsSnapshot,
    setting: i64,
)
    requires
        setting <= usize::MAX,
    ensures
        ({
            let after = newest(samples.push(snapshot), history_limit(setting) as int);
            &&& 0 < after.len() <= history_limit(setting)
            &&& after.last() == snapshot
            &&& samples.len() < history_limit(setting) ==> after == samples.push(snapshot)
        }),
{
}

// ---------------------------------------------------------------------------
// Histories by daemon
// ---------------------------------------------------------------------------

/// The histories of daemons, one for each.
#[derive(Debug)]
pub struct HistoryMap {
    histories: IdMap<StatsHistory>,
}

impl View for HistoryMap {
    type V = Map<IdView, Seq<StatsSnapshot>>;

    closed spec fn view(&self) -> Map<IdView, Seq<StatsSnapshot>> {
        self.histories@.map_values(|history: StatsHistory| history@)
    }
}

/// The histories after a snapshot of a daemon was taken.
pub open spec fn recorded(
    histories: Map<IdView, Seq<StatsSnapshot>>,
    id: IdView,
    snapshot: StatsSnapshot,
    setting: i64,
) -> Map<IdView, Seq<StatsSnapshot>> {
    let before = if histories.dom().contains(id) {
        histories[id]
    } else {
        Seq::empty()
    };
    histories.insert(id, newest(before.push(snapshot), history_limit(setting) as int))
}

impl HistoryMap {
    pub fn new() -> (r: Self)
        ensures
            r@ == Map::<IdView, Seq<StatsSnapshot>>::empty(),
    {
        let r = HistoryMap { histories: IdMap::new() };
        assert(r@ =~= Map::<IdView, Seq<StatsSnapshot>>::empty());
        r
    }

    pub fn get(&self, id: &DaemonId) -> (r: Option<&StatsHistory>)
        ensures
            match r {
                Some(h) => self@.dom().contains(id@) && h@ == self@[id@],
                None => !self@.dom().contains(id@),
            },
    {
        self.histories.get(id)
    }

    /// Adds a snapshot to the history of a daemon, which is begun where there is none.
    pub fn record(&mut self, id: &DaemonId, snapshot: StatsSnapshot, stat_history: i64)
        ensures
            final(self)@ == recorded(old(self)@, id@, snapshot, stat_history),
    {
        let mut history = match self.histories.insert(id, StatsHistory::default()) {
            Some(history) => history,
            None => StatsHistory::default(),
        };
        history.push(snapshot, stat_history);
        self.histories.insert(id, history);
        assert(self@ =~= recorded(old(self)@, id@, snapshot, stat_history));
    }
}

/// A history keeps the newest snapshots, in their order, and as many as the
/// setting allows, which is at least one: only the oldest go, and only where
/// there are too many.
pub proof fn law_only_the_oldest_go(
    samples: Seq<StatsSnapshot>,
    snapshot: StatsSnapshot,
    setting: i64,
)
    requires
        setting <= usize::MAX,
    ensures
        ({
            let after = newest(samples.push(snapshot), history_limit(setting) as int);
            let limit = if setting < 1 {
                1
            } else {
                setting as int
            };
            let all = samples.push(snapshot);
            &&& after.len() == (if all.len() < limit {
                all.len() as int
            } else {
                limit
            })
            &&& forall|i: int|
                0 <= i < after.len() ==> after[i] == all[i + all.len() - after.len()]
        }),
{
}

/// A snapshot goes to the history of its own daemon, which is begun where there
/// is none; those of other daemons stay as they are.
pub proof fn law_histories_are_kept_apart(
    histories: Map<IdView, Seq<StatsSnapshot>>,
    id: IdView,
    snapshot: StatsSnapshot,
    setting: i64,
    other: IdView,
)
    requires
        setting <= usize::MAX,
    ensures
        ({
            let after = recorded(histories, id, snapshot, setting);
            &&& after.dom().contains(id) && after[id].len() > 0 && after[id].last() == snapshot
            &&& !histories.dom().contains(id) ==> after[id] == seq![snapshot]
            &&& histories.dom().contains(id) && histories[id].len() < setting ==> after[id]
                == histories[id].push(snapshot)
            &&& other != id ==> (after.dom().contains(other) <==> histories.dom().contains(other))
            &&& other != id && histories.dom().contains(other) ==> after[other] == histories[other]
        }),
{
    assert(newest(Seq::empty().push(snapshot), history_limit(setting) as int) =~= seq![snapshot]);
}

/// A snapshot holds the figures of the process.
pub proof fn law_snapshots_hold_the_figures(stats: ProcessStats)
    ensures
        snapshot_of(stats).cpu_bits == stats.cpu_bits,
        snapshot_of(stats).memory_bytes == stats.memory_bytes,
        snapshot_of(stats).disk_read_bytes == stats.disk_read_bytes,
        snapshot_of(stats).disk_write_bytes == stats.disk_write_bytes,
{
}

} // verus!
