//! Stopping daemons: dependents before what they depend on.
use vstd::prelude::*;

use crate::client::{running_daemons, IpcClient};
use crate::client;
use crate::daemon::{clone_ids, contains_id, Daemon, DaemonId, IdView};
use crate::daemon;
use crate::lists;
use crate::start;

verus! {

/// What came of stopping daemons.
#[derive(Debug, Clone, Copy, PartialEq, Eq, Structural)]
pub struct StopResult {
    pub any_failed: bool,
}

/// How the task for one daemon ended.
#[derive(Debug, Clone, Copy, PartialEq, Eq, Structural)]
pub enum StopEnd {
    Stopped,
    Failed,
    Panicked,
}

/// One request to stop daemons, while it is worked through.
#[derive(Debug)]
pub struct StopSession {
    pub running: Vec<DaemonId>,
    /// The daemons that were asked for and run.
    pub requested: Vec<DaemonId>,
    /// The order in which they are stopped.
    pub levels: Vec<Vec<DaemonId>>,
    pub next_level: usize,
    pub any_failed: bool,
}

#[verifier::ext_equal]
pub struct StopView {
    pub running: Seq<IdView>,
    pub requested: Seq<IdView>,
    pub levels: Seq<Seq<IdView>>,
    pub next_level: nat,
    pub any_failed: bool,
}

impl View for StopSession {
    type V = StopView;

    open spec fn view(&self) -> StopView {
        StopView {
            running: daemon::id_views(self.running@),
            requested: daemon::id_views(self.requested@),
            levels: start::level_views(self.levels@),
            next_level: self.next_level as nat,
            any_failed: self.any_failed,
        }
    }
}

/// The session for a request. Daemons that do not run are left out.
pub open spec fn stop_session_of(ids: Seq<IdView>, running: Seq<IdView>) -> StopView {
    StopView {
        running,
        requested: client::common(ids, running),
        levels: Seq::empty(),
        next_level: 0,
        any_failed: false,
    }
}

impl StopView {
    /// The session and the daemons that are stopped next; none where nothing
    /// is left. Levels in which nothing runs are passed over.
    pub open spec fn advance(self) -> (StopView, Seq<IdView>)
        decreases self.levels.len() - self.next_level,
    {
        if self.next_level < self.levels.len() {
            let targets = client::common(self.levels[self.next_level as int], self.running);
            let next = StopView { next_level: self.next_level + 1, ..self };
            if targets.len() > 0 {
                (next, targets)
            } else {
                next.advance()
            }
        } else {
            (self, Seq::empty())
        }
    }
}

fn running_among(ids: &Vec<DaemonId>, running: &Vec<DaemonId>) -> (r: Vec<DaemonId>)
    ensures
        daemon::id_views(r@) == client::common(daemon::id_views(ids@), daemon::id_views(running@)),
{
    let ghost all = daemon::id_views(ids@);
    let ghost up = daemon::id_views(running@);
    let ghost keep = |id: IdView| up.contains(id);
    let mut out: Vec<DaemonId> = Vec::new();
    let mut i: usize = 0;
    proof {
        reveal(Seq::filter);
        assert(daemon::id_views(out@) =~= all.take(0).filter(keep));
    }
    while i < ids.len()
        invariant
            i <= ids@.len(),
            all == daemon::id_views(ids@),
            up == daemon::id_views(running@),
            keep == (|id: IdView| up.contains(id)),
            daemon::id_views(out@) == all.take(i as int).filter(keep),
        decreases ids@.len() - i,
    {
        let id = ids[i].clone();
        proof {
            reveal(Seq::filter);
            assert(all.take(i + 1).drop_last() =~= all.take(i as int));
            assert(all.take(i + 1).last() == id@);
            assert(keep(id@) == up.contains(id@));
            assert(daemon::id_views(out@.push(id)) =~= daemon::id_views(out@).push(id@));
        }
        if contains_id(running, &id) {
            out.push(id);
        }
        i += 1;
    }
    assert(all.take(i as int) =~= all);
    out
}

impl IpcClient {
    /// Opens the session for a request to stop daemons.
    pub fn stop_daemons(&self, ids: &Vec<DaemonId>) -> (r: StopSession)
        ensures
            r@ == stop_session_of(daemon::id_views(ids@), client::running_ids(self.active@)),
    {
        let running = running_daemons(&self.active);
        let requested = running_among(ids, &running);
        let r = StopSession {
            running,
            requested,
            levels: Vec::new(),
            next_level: 0,
            any_failed: false,
        };
        assert(r@.levels =~= Seq::empty());
        r
    }
}

impl StopSession {
    /// Takes over the order in which the requested daemons are stopped.
    pub fn set_levels(&mut self, levels: Vec<Vec<DaemonId>>)
        ensures
            final(self)@ == (StopView {
                levels: start::level_views(levels@),
                next_level: 0,
                ..old(self)@
            }),
    {
        self.levels = levels;
        self.next_level = 0;
    }

    /// The daemons that are stopped next; none where nothing is left.
    pub fn next(&mut self) -> (r: Vec<DaemonId>)
        ensures
            (final(self)@, daemon::id_views(r@)) == old(self)@.advance(),
    {
        let ghost goal = self@.advance();
        while self.next_level < self.levels.len()
            invariant
                goal == old(self)@.advance(),
                self@.advance() == goal,
            decreases self.levels@.len() - self.next_level,
        {
            let ghost before = self@;
            let level = clone_ids(&self.levels[self.next_level]);
            proof {
                assert(before.levels[before.next_level as int] == daemon::id_views(level@));
            }
            let targets = running_among(&level, &self.running);
            self.next_level += 1;
            if targets.len() > 0 {
                assert(self@ == goal.0);
                return targets;
            }
        }
        assert(self@.levels.len() == self.levels@.len());
        let none: Vec<DaemonId> = Vec::new();
        assert(daemon::id_views(none@) =~= Seq::empty());
        none
    }

    /// Takes over how the tasks of a level ended. A failure does not keep the
    /// remaining daemons from being stopped.
    pub fn end_level(&mut self, ends: &Vec<StopEnd>)
        ensures
            final(self)@ == (StopView {
                any_failed: old(self)@.any_failed || exists|i: int|
                    0 <= i < ends@.len() && (#[trigger] ends@[i]) != StopEnd::Stopped,
                ..old(self)@
            }),
    {
        let ghost start = self@;
        let mut i: usize = 0;
        while i < ends.len()
            invariant
                i <= ends@.len(),
                self@ == (StopView {
                    any_failed: start.any_failed || exists|k: int|
                        0 <= k < i && (#[trigger] ends@[k]) != StopEnd::Stopped,
                    ..start
                }),
            decreases ends@.len() - i,
        {
            if ends[i] != StopEnd::Stopped {
                assert(ends@[i as int] != StopEnd::Stopped);
                self.any_failed = true;
            }
            i += 1;
        }
    }

    pub fn result(&self) -> (r: StopResult)
        ensures
            r.any_failed == self@.any_failed,
    {
        StopResult { any_failed: self.any_failed }
    }
}

// ---------------------------------------------------------------------------
// Laws
// ---------------------------------------------------------------------------

/// Only daemons that run are stopped.
pub proof fn law_only_running_daemons_are_stopped(s: StopView, id: IdView)
    requires
        s.advance().1.contains(id),
    ensures
        s.running.contains(id),
    decreases s.levels.len() - s.next_level,
{
    if s.next_level < s.levels.len() {
        let level = s.levels[s.next_level as int];
        let keep = |d: IdView| s.running.contains(d);
        let ids = level.filter(keep);
        if ids.len() > 0 {
            let k = choose|k: int| 0 <= k < ids.len() && ids[k] == id;
            level.lemma_filter_pred(keep, k);
            assert(keep(id));
        } else {
            law_only_running_daemons_are_stopped(
                (StopView { next_level: s.next_level + 1, ..s }),
                id,
            );
        }
    }
}

/// A failure does not change what is stopped next.
pub proof fn law_stopping_goes_on_after_a_failure(s: StopView, failed: bool)
    ensures
        (StopView { any_failed: failed, ..s }).advance().1 == s.advance().1,
        (StopView { any_failed: failed, ..s }).advance().0.next_level == s.advance().0.next_level,
    decreases s.levels.len() - s.next_level,
{
    if s.next_level < s.levels.len() {
        law_stopping_goes_on_after_a_failure(
            (StopView { next_level: s.next_level + 1, ..s }),
            failed,
        );
    }
}

/// Every running daemon of every level is stopped in its turn: nothing is left
/// only once all levels are behind.
pub proof fn law_stopping_reaches_every_level(s: StopView)
    ensures
        s.advance().1.len() == 0 ==> forall|k: int, i: int|
            s.next_level <= k < s.levels.len() && 0 <= i < s.levels[k].len()
                ==> !s.running.contains(#[trigger] s.levels[k][i]),
        s.advance().1.len() > 0 ==> s.next_level < s.advance().0.next_level <= s.levels.len(),
    decreases s.levels.len() - s.next_level,
{
    if s.next_level < s.levels.len() {
        let next = StopView { next_level: s.next_level + 1, ..s };
        let level = s.levels[s.next_level as int];
        let keep = |d: IdView| s.running.contains(d);
        law_stopping_reaches_every_level(next);
        if s.advance().1.len() == 0 {
            assert(level.filter(keep).len() == 0);
            assert forall|k: int, i: int|
                s.next_level <= k < s.levels.len() && 0 <= i < s.levels[k].len() implies
                !s.running.contains(#[trigger] s.levels[k][i]) by {
                if k == s.next_level {
                    if s.running.contains(level[i]) {
                        assert(keep(level[i]));
                        level.lemma_filter_contains(keep, i);
                    }
                } else {
                    assert(!next.running.contains(next.levels[k][i]));
                }
            }
        }
    }
}

/// What is stopped next is one whole level but for what does not run in it: all
/// running daemons of every level that is left behind, in the order of the
/// level, and nothing else. Levels are taken one after the other, none is
/// skipped while something runs in it, and nothing else of the session changes.
pub proof fn law_a_level_is_stopped_as_a_whole(s: StopView)
    ensures
        ({
            let (next, ids) = s.advance();
            // Each running daemon of a level that is left behind is stopped.
            &&& forall|k: int, i: int|
                s.next_level <= k < next.next_level && k < s.levels.len() && 0 <= i
                    < s.levels[k].len() && s.running.contains(#[trigger] s.levels[k][i])
                    ==> ids.contains(s.levels[k][i])
            // They are those of one level, in its order and as often.
            &&& ids.len() > 0 ==> s.next_level < next.next_level <= s.levels.len() && ids
                == s.levels[next.next_level - 1].filter(|id: IdView| s.running.contains(id))
            // In the levels before it nothing runs.
            &&& ids.len() > 0 ==> forall|k: int, i: int|
                s.next_level <= k < next.next_level - 1 && 0 <= i < s.levels[k].len()
                    ==> !s.running.contains(#[trigger] s.levels[k][i])
            // There is an end only where nothing runs in any level that is left.
            &&& ids.len() == 0 <==> forall|k: int, i: int|
                s.next_level <= k < s.levels.len() && 0 <= i < s.levels[k].len()
                    ==> !s.running.contains(#[trigger] s.levels[k][i])
            &&& next == (StopView { next_level: next.next_level, ..s })
        }),
    decreases s.levels.len() - s.next_level,
{
    let (end, ids) = s.advance();
    if s.next_level < s.levels.len() {
        let n = s.next_level as int;
        let level = s.levels[n];
        let keep = |d: IdView| s.running.contains(d);
        let here = level.filter(keep);
        let next = StopView { next_level: s.next_level + 1, ..s };
        assert forall|i: int| 0 <= i < level.len() && s.running.contains(#[trigger] level[i]) implies
            here.contains(level[i]) by {
            lists::lemma_filter_members(level, keep, level[i]);
        }
        if here.len() > 0 {
            assert(here.contains(here[0]));
            lists::lemma_filter_members(level, keep, here[0]);
            let i = choose|i: int| 0 <= i < level.len() && level[i] == here[0];
            assert(s.running.contains(s.levels[n][i]));
            assert forall|k: int, i: int|
                s.next_level <= k < end.next_level && k < s.levels.len() && 0 <= i
                    < s.levels[k].len() && s.running.contains(
                    #[trigger] s.levels[k][i],
                ) implies ids.contains(s.levels[k][i]) by {
                assert(k == n);
                assert(level[i] == s.levels[k][i]);
            }
        } else {
            law_a_level_is_stopped_as_a_whole(next);
            assert forall|i: int| 0 <= i < level.len() implies !s.running.contains(
                #[trigger] s.levels[n][i],
            ) by {
                assert(level[i] == s.levels[n][i]);
            }
            assert forall|k: int, i: int|
                s.next_level <= k < end.next_level && k < s.levels.len() && 0 <= i
                    < s.levels[k].len() && s.running.contains(
                    #[trigger] s.levels[k][i],
                ) implies ids.contains(s.levels[k][i]) by {
                if k > n {
                    assert(next.running.contains(next.levels[k][i]));
                }
            }
            if ids.len() > 0 {
                assert forall|k: int, i: int|
                    s.next_level <= k < end.next_level - 1 && 0 <= i
                        < s.levels[k].len() implies !s.running.contains(
                    #[trigger] s.levels[k][i],
                ) by {
                    if k > n {
                        assert(!next.running.contains(next.levels[k][i]));
                    }
                }
                assert(!forall|k: int, i: int|
                    next.next_level <= k < next.levels.len() && 0 <= i < next.levels[k].len()
                        ==> !next.running.contains(#[trigger] next.levels[k][i]));
            } else {
                assert forall|k: int, i: int|
                    s.next_level <= k < s.levels.len() && 0 <= i < s.levels[k].len() implies
                    !s.running.contains(#[trigger] s.levels[k][i]) by {
                    if k > n {
                        assert(!next.running.contains(next.levels[k][i]));
                    }
                }
            }
        }
    }
}

/// A request to stop is about the daemons that were asked for and run, in the
/// order in which they were asked for, and begins with nothing done.
pub proof fn law_stop_requests_are_for_running_daemons(
    ids: Seq<IdView>,
    active: Seq<Daemon>,
    id: IdView,
)
    ensures
        ({
            let s = stop_session_of(ids, client::running_ids(active));
            &&& s.requested.contains(id) <==> ids.contains(id) && exists|i: int|
                0 <= i < active.len() && (#[trigger] active[i]).id@ == id && (active[i].status
                    is Running || active[i].status is Waiting)
            &&& s.running.contains(id) <==> exists|i: int|
                0 <= i < active.len() && (#[trigger] active[i]).id@ == id && (active[i].status
                    is Running || active[i].status is Waiting)
            &&& s.requested == ids.filter(|d: IdView| s.running.contains(d))
            &&& s.levels.len() == 0 && s.next_level == 0 && !s.any_failed
        }),
{
    client::law_running_means_up(active, id);
    let up = client::running_ids(active);
    lists::lemma_filter_members(ids, |d: IdView| up.contains(d), id);
}

/// Every part of a session is seen.
pub proof fn law_stop_sessions_are_seen_whole(s: StopSession, k: int)
    ensures
        s@.running == s.running@.map_values(|id: DaemonId| id@),
        s@.requested == s.requested@.map_values(|id: DaemonId| id@),
        s@.levels.len() == s.levels@.len(),
        0 <= k < s.levels@.len() ==> s@.levels[k] == s.levels@[k]@.map_values(|id: DaemonId| id@),
        s@.next_level == s.next_level,
        s@.any_failed == s.any_failed,
{
}

} // verus!
