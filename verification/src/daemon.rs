//! Daemons as the front ends see them: identifiers, states and resource use.
use vstd::prelude::*;

use crate::config::{EnvMap, ReadyHttp};
use crate::lists;
use crate::text::same_text;

verus! {

// ---------------------------------------------------------------------------
// Identifiers
// ---------------------------------------------------------------------------

/// A daemon's name together with the namespace of the project that defines it.
#[derive(Debug)]
pub struct DaemonId {
    pub namespace: String,
    pub name: String,
}

/// What a [`DaemonId`] stands for.
#[verifier::ext_equal]
pub struct IdView {
    pub namespace: Seq<char>,
    pub name: Seq<char>,
}

impl IdView {
    /// The namespace, a slash and the name.
    pub open spec fn qualified(self) -> Seq<char> {
        self.namespace + "/"@ + self.name
    }
}

impl View for DaemonId {
    type V = IdView;

    open spec fn view(&self) -> IdView {
        IdView { namespace: self.namespace@, name: self.name@ }
    }
}

impl Clone for DaemonId {
    fn clone(&self) -> (r: Self)
        ensures
            r == *self,
    {
        DaemonId { namespace: self.namespace.clone(), name: self.name.clone() }
    }
}

impl DaemonId {
    pub fn new(namespace: &str, name: &str) -> (r: Self)
        ensures
            r@.namespace == namespace@,
            r@.name == name@,
    {
        DaemonId { namespace: namespace.to_owned(), name: name.to_owned() }
    }

    pub fn namespace(&self) -> (r: &str)
        ensures
            r@ == self@.namespace,
    {
        self.namespace.as_str()
    }

    /// The text by which the daemon is shown and looked up.
    pub fn qualified(&self) -> (r: String)
        ensures
            r@ == self@.qualified(),
    {
        let mut text = self.namespace.clone();
        text.append("/");
        text.append(self.name.as_str());
        text
    }

    pub fn same(&self, other: &DaemonId) -> (r: bool)
        ensures
            r == (self@ == other@),
    {
        same_text(self.namespace.as_str(), other.namespace.as_str()) && same_text(
            self.name.as_str(),
            other.name.as_str(),
        )
    }
}

/// Where namespaces hold no slash, daemons with the same qualified name are the
/// same daemon.
pub proof fn law_qualified_names_tell_daemons_apart(a: IdView, b: IdView)
    requires
        !a.namespace.contains('/'),
        !b.namespace.contains('/'),
        a.qualified() == b.qualified(),
    ensures
        a == b,
{
    reveal_strlit("/");
    let q = a.qualified();
    let n = a.namespace.len() as int;
    let m = b.namespace.len() as int;
    assert(q[n] == '/');
    assert(b.qualified()[m] == '/');
    if n < m {
        assert(b.namespace[n] == b.qualified()[n]);
    }
    if m < n {
        assert(a.namespace[m] == q[m]);
    }
    assert(a.namespace =~= q.take(n));
    assert(b.namespace =~= b.qualified().take(m));
    assert(a.name =~= q.skip(n + 1));
    assert(b.name =~= b.qualified().skip(m + 1));
}

/// What a list of identifiers stands for.
pub open spec fn id_views(ids: Seq<DaemonId>) -> Seq<IdView> {
    ids.map_values(|id: DaemonId| id@)
}

pub fn contains_id(ids: &Vec<DaemonId>, id: &DaemonId) -> (r: bool)
    ensures
        r == id_views(ids@).contains(id@),
{
    let mut i: usize = 0;
    while i < ids.len()
        invariant
            i <= ids@.len(),
            forall|k: int| 0 <= k < i ==> (#[trigger] id_views(ids@)[k]) != id@,
        decreases ids@.len() - i,
    {
        if ids[i].same(id) {
            assert(id_views(ids@)[i as int] == id@);
            return true;
        }
        i += 1;
    }
    false
}

pub fn clone_ids(ids: &Vec<DaemonId>) -> (r: Vec<DaemonId>)
    ensures
        r@ == ids@,
{
    let mut out: Vec<DaemonId> = Vec::new();
    let mut i: usize = 0;
    while i < ids.len()
        invariant
            i <= ids@.len(),
            out@ == ids@.take(i as int),
        decreases ids@.len() - i,
    {
        out.push(ids[i].clone());
        proof {
            assert(out@ =~= ids@.take(i + 1));
        }
        i += 1;
    }
    assert(ids@.take(i as int) =~= ids@);
    out
}

// ---------------------------------------------------------------------------
// Sets of identifiers
// ---------------------------------------------------------------------------

/// A set of daemons, in which no daemon is held twice.
#[derive(Debug)]
pub struct IdSet {
    ids: Vec<DaemonId>,
}

impl View for IdSet {
    type V = Set<IdView>;

    closed spec fn view(&self) -> Set<IdView> {
        id_views(self.ids@).to_set()
    }
}

impl IdSet {
    #[verifier::type_invariant]
    spec fn distinct(self) -> bool {
        id_views(self.ids@).no_duplicates()
    }

    pub fn new() -> (r: Self)
        ensures
            r@ == Set::<IdView>::empty(),
    {
        let r = IdSet { ids: Vec::new() };
        assert(r@ =~= Set::<IdView>::empty());
        r
    }

    pub fn contains(&self, id: &DaemonId) -> (r: bool)
        ensures
            r == self@.contains(id@),
    {
        contains_id(&self.ids, id)
    }

    pub fn len(&self) -> (r: usize)
        ensures
            r == self@.len(),
    {
        proof {
            use_type_invariant(self);
            id_views(self.ids@).unique_seq_to_set();
        }
        self.ids.len()
    }

    pub fn insert(&mut self, id: DaemonId)
        ensures
            final(self)@ == old(self)@.insert(id@),
    {
        proof {
            use_type_invariant(&*self);
        }
        if !self.contains(&id) {
            let mut ids = clone_ids(&self.ids);
            ids.push(id);
            proof {
                let before = id_views(self.ids@);
                assert(id_views(ids@) =~= before.push(id@));
                lists::lemma_push_distinct(before, id@);
                assert(before.push(id@).to_set() =~= before.to_set().insert(id@)) by {
                    assert forall|v: IdView| #[trigger] before.push(id@).contains(v) == (
                    before.contains(v) || v == id@) by {
                        lists::lemma_push_contains(before, id@, v);
                    }
                }
            }
            *self = IdSet { ids };
        } else {
            assert(self@ =~= self@.insert(id@));
        }
    }

    pub fn remove(&mut self, id: &DaemonId)
        ensures
            final(self)@ == old(self)@.remove(id@),
    {
        proof {
            use_type_invariant(&*self);
        }
        let ghost all = id_views(self.ids@);
        let mut kept: Vec<DaemonId> = Vec::new();
        let mut i: usize = 0;
        while i < self.ids.len()
            invariant
                i <= self.ids@.len(),
                all == id_views(self.ids@),
                all.no_duplicates(),
                id_views(kept@).no_duplicates(),
                forall|v: IdView| #[trigger]
                    id_views(kept@).contains(v) <==> v != id@ && all.take(i as int).contains(v),
            decreases self.ids@.len() - i,
        {
            let ghost before = id_views(kept@);
            let ghost done = all.take(i as int);
            let ghost here = all[i as int];
            proof {
                assert(all.take(i + 1) =~= done.push(here));
                assert(!done.contains(here));
                assert forall|v: IdView| #[trigger] done.push(here).contains(v) == (done.contains(v)
                    || v == here) by {
                    lists::lemma_push_contains(done, here, v);
                }
            }
            if !self.ids[i].same(id) {
                kept.push(self.ids[i].clone());
                proof {
                    assert(id_views(kept@) =~= before.push(here));
                    lists::lemma_push_distinct(before, here);
                    assert forall|v: IdView| #[trigger] before.push(here).contains(v) == (
                    before.contains(v) || v == here) by {
                        lists::lemma_push_contains(before, here, v);
                    }
                }
            }
            i += 1;
        }
        proof {
            assert(all.take(i as int) =~= all);
            assert(id_views(kept@).to_set() =~= all.to_set().remove(id@));
        }
        *self = IdSet { ids: kept };
    }

    pub fn clear(&mut self)
        ensures
            final(self)@ == Set::<IdView>::empty(),
    {
        *self = IdSet::new();
    }

    /// The daemons of the set, each once, in no particular order.
    pub fn to_vec(&self) -> (r: Vec<DaemonId>)
        ensures
            id_views(r@).no_duplicates(),
            id_views(r@).to_set() == self@,
    {
        proof {
            use_type_invariant(self);
        }
        clone_ids(&self.ids)
    }
}

// ---------------------------------------------------------------------------
// Daemons
// ---------------------------------------------------------------------------

#[derive(Debug)]
pub enum DaemonStatus {
    Running,
    Waiting,
    Stopping,
    Stopped,
    /// Ended with an exit code.
    Errored(i32),
    /// Could not be run.
    Failed(String),
}

impl DaemonStatus {
    pub fn is_running(&self) -> (r: bool)
        ensures
            r == (self is Running),
    {
        matches!(self, DaemonStatus::Running)
    }

    pub fn is_waiting(&self) -> (r: bool)
        ensures
            r == (self is Waiting),
    {
        matches!(self, DaemonStatus::Waiting)
    }

    pub fn is_stopped(&self) -> (r: bool)
        ensures
            r == (self is Stopped),
    {
        matches!(self, DaemonStatus::Stopped)
    }

    pub fn is_errored(&self) -> (r: bool)
        ensures
            r == (self is Errored),
    {
        matches!(self, DaemonStatus::Errored(_))
    }

    pub fn is_failed(&self) -> (r: bool)
        ensures
            r == (self is Failed),
    {
        matches!(self, DaemonStatus::Failed(_))
    }
}

/// What the supervisor knows of a daemon.
#[derive(Debug)]
pub struct Daemon {
    pub id: DaemonId,
    pub pid: Option<u32>,
    pub status: DaemonStatus,
    /// The command that it was started with, where it was saved.
    pub cmd: Option<Vec<String>>,
    pub dir: Option<String>,
    pub env: Option<EnvMap>,
    pub ready_http: Option<ReadyHttp>,
    pub resolved_port: Vec<u16>,
}

impl Daemon {
    /// Whether the daemon runs or is about to.
    pub open spec fn is_up(self) -> bool {
        self.status is Running || self.status is Waiting
    }

    pub fn up(&self) -> (r: bool)
        ensures
            r == self.is_up(),
    {
        self.status.is_running() || self.status.is_waiting()
    }
}

/// A daemon in the list of all daemons.
#[derive(Debug)]
pub struct DaemonListEntry {
    pub daemon: Daemon,
    pub is_disabled: bool,
    /// Whether the daemon is only configured, not known to the supervisor.
    pub is_available: bool,
}

/// What a process uses.
#[derive(Debug, Clone, Copy)]
pub struct ProcessStats {
    /// The share of the processor in percent, as the bits of an IEEE 754
    /// single-precision number.
    pub cpu_bits: u32,
    pub memory_bytes: u64,
    pub uptime_secs: u64,
    pub disk_read_bytes: u64,
    pub disk_write_bytes: u64,
}

/// A whole number that orders as the single-precision number with the bits
/// does; none where the bits are not a number.
pub open spec fn cpu_rank(bits: u32) -> Option<int> {
    let magnitude = bits as int % 0x8000_0000;
    if magnitude > 0x7f80_0000 {
        None
    } else if bits >= 0x8000_0000 {
        Some(-magnitude)
    } else {
        Some(magnitude)
    }
}

impl ProcessStats {
    pub fn cpu_order(&self) -> (r: Option<i128>)
        ensures
            match r {
                Some(n) => cpu_rank(self.cpu_bits) == Some(n as int),
                None => cpu_rank(self.cpu_bits) is None,
            },
    {
        let magnitude: u32 = self.cpu_bits % 0x8000_0000;
        if magnitude > 0x7f80_0000 {
            None
        } else if self.cpu_bits >= 0x8000_0000 {
            Some(-(magnitude as i128))
        } else {
            Some(magnitude as i128)
        }
    }
}

/// The figures order as single-precision numbers do: positive ones by their
/// bits, negative ones the other way round and before them, the two zeros
/// alike. What is not a number has no place in the order.
pub proof fn law_shares_order_as_numbers(a: u32, b: u32)
    ensures
        cpu_rank(a) is None <==> 0x7f80_0000 < a < 0x8000_0000 || 0xff80_0000 < a,
        a <= 0x7f80_0000 && b <= 0x7f80_0000 ==> (cpu_rank(a)->0 < cpu_rank(b)->0 <==> a < b),
        0x8000_0000 <= a <= 0xff80_0000 && 0x8000_0000 <= b <= 0xff80_0000 ==> (cpu_rank(a)->0
            < cpu_rank(b)->0 <==> a > b),
        0x8000_0000 < a <= 0xff80_0000 && b <= 0x7f80_0000 ==> cpu_rank(a)->0 < cpu_rank(b)->0,
        cpu_rank(0x8000_0000) == cpu_rank(0),
{
}

/// A daemon is shown by its namespace and its name with a slash between them.
pub proof fn law_qualified_names(id: IdView)
    ensures
        id.qualified() == id.namespace.push('/') + id.name,
{
    reveal_strlit("/");
    assert(id.qualified() =~= id.namespace.push('/') + id.name);
}

/// An identifier stands for its two texts, and a list for each of its
/// identifiers in order.
pub proof fn law_identifiers_are_seen_whole(id: DaemonId, ids: Seq<DaemonId>, i: int)
    ensures
        id@.namespace == id.namespace@,
        id@.name == id.name@,
        id_views(ids).len() == ids.len(),
        0 <= i < ids.len() ==> id_views(ids)[i] == ids[i]@,
{
}

/// A daemon is up while it runs and while it waits to.
pub proof fn law_when_a_daemon_is_up(d: Daemon)
    ensures
        d.is_up() <==> d.status is Running || d.status is Waiting,
{
}

} // verus!
