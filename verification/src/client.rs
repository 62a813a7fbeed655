//! Questions that the supervisor and the configuration answer together.
use vstd::prelude::*;

use crate::config::PitchforkToml;
use crate::daemon::{contains_id, Daemon, DaemonId, IdView};
use crate::daemon;
use crate::lists;
use crate::text::same_text;

verus! {

/// What the supervisor says at one time.
#[derive(Debug)]
pub struct IpcClient {
    /// The daemons that it knows.
    pub active: Vec<Daemon>,
    /// The daemons that may not be started.
    pub disabled: Vec<DaemonId>,
}

/// Whether a daemon belongs to the global configuration files.
pub open spec fn is_global(id: IdView) -> bool {
    id.namespace == "global"@
}

/// The identifiers of the daemons that run or are about to, in order.
pub open spec fn running_ids(daemons: Seq<Daemon>) -> Seq<IdView>
    decreases daemons.len(),
{
    if daemons.len() == 0 {
        Seq::empty()
    } else if daemons.last().is_up() {
        running_ids(daemons.drop_last()).push(daemons.last().id@)
    } else {
        running_ids(daemons.drop_last())
    }
}

/// The daemons that run or are about to.
pub fn running_daemons(daemons: &Vec<Daemon>) -> (r: Vec<DaemonId>)
    ensures
        daemon::id_views(r@) == running_ids(daemons@),
{
    let ghost all = daemons@;
    let mut out: Vec<DaemonId> = Vec::new();
    let mut i: usize = 0;
    assert(daemon::id_views(out@) =~= running_ids(all.take(0)));
    while i < daemons.len()
        invariant
            i <= daemons@.len(),
            all == daemons@,
            daemon::id_views(out@) == running_ids(all.take(i as int)),
        decreases daemons@.len() - i,
    {
        assert(all.take(i + 1).drop_last() =~= all.take(i as int));
        if daemons[i].up() {
            let id = daemons[i].id.clone();
            proof {
                assert(daemon::id_views(out@.push(id)) =~= daemon::id_views(out@).push(id@));
            }
            out.push(id);
        }
        i += 1;
    }
    assert(all.take(i as int) =~= all);
    out
}

/// The identifiers that are in both, in the order of the first.
pub open spec fn common(ids: Seq<IdView>, others: Seq<IdView>) -> Seq<IdView> {
    ids.filter(|id: IdView| others.contains(id))
}

impl IpcClient {
    /// All configured daemons, in order.
    pub fn get_all_configured_daemons(pt: &PitchforkToml) -> (r: Vec<DaemonId>)
        ensures
            daemon::id_views(r@) == lists::keys(pt@),
            daemon::id_views(r@).no_duplicates(),
    {
        pt.ids()
    }

    /// The daemons of project files.
    pub fn get_local_configured_daemons(pt: &PitchforkToml) -> (r: Vec<DaemonId>)
        ensures
            daemon::id_views(r@) == lists::keys(pt@).filter(|id: IdView| !is_global(id)),
            daemon::id_views(r@).no_duplicates(),
    {
        let r = IpcClient::get_configured_daemons_filtered(pt, false);
        proof {
            assert((|id: IdView| is_global(id) == false) =~= (|id: IdView| !is_global(id)));
        }
        r
    }

    /// The daemons of global configuration files.
    pub fn get_global_configured_daemons(pt: &PitchforkToml) -> (r: Vec<DaemonId>)
        ensures
            daemon::id_views(r@) == lists::keys(pt@).filter(|id: IdView| is_global(id)),
            daemon::id_views(r@).no_duplicates(),
    {
        let r = IpcClient::get_configured_daemons_filtered(pt, true);
        proof {
            assert((|id: IdView| is_global(id) == true) =~= (|id: IdView| is_global(id)));
        }
        r
    }

    fn get_configured_daemons_filtered(pt: &PitchforkToml, global: bool) -> (r: Vec<DaemonId>)
        ensures
            daemon::id_views(r@) == lists::keys(pt@).filter(|id: IdView| is_global(id) == global),
            daemon::id_views(r@).no_duplicates(),
    {
        let ids = pt.ids();
        let ghost all = daemon::id_views(ids@);
        let ghost keep = |id: IdView| is_global(id) == global;
        let mut out: Vec<DaemonId> = Vec::new();
        let mut i: usize = 0;
        proof {
            reveal(Seq::filter);
            assert(daemon::id_views(out@) =~= all.take(0).filter(keep));
        }
        while i < ids.len()
            invariant
                i <= ids@.len(),
                all == daemon::id_views(ids@),
                keep == (|id: IdView| is_global(id) == global),
                daemon::id_views(out@) == all.take(i as int).filter(keep),
            decreases ids@.len() - i,
        {
            let id = ids[i].clone();
            proof {
                reveal(Seq::filter);
                assert(all.take(i + 1).drop_last() =~= all.take(i as int));
                assert(all.take(i + 1).last() == id@);
                assert(keep(id@) == (is_global(id@) == global));
                assert(daemon::id_views(out@.push(id)) =~= daemon::id_views(out@).push(id@));
            }
            if same_text(id.namespace(), "global") == global {
                out.push(id);
            }
            i += 1;
        }
        proof {
            assert(all.take(i as int) =~= all);
            lists::lemma_filter_distinct(all, keep);
        }
        out
    }

    /// The daemons that run or are about to.
    pub fn get_running_daemons(&self) -> (r: Vec<DaemonId>)
        ensures
            daemon::id_views(r@) == running_ids(self.active@),
    {
        running_daemons(&self.active)
    }

    /// The daemons that run or are about to and are configured, in global
    /// files or in project files.
    pub fn get_running_configured_daemons(&self, pt: &PitchforkToml, global: bool) -> (r: Vec<
        DaemonId,
    >)
        ensures
            daemon::id_views(r@) == common(
                running_ids(self.active@),
                lists::keys(pt@).filter(|id: IdView| is_global(id) == global),
            ),
    {
        let configured = IpcClient::get_configured_daemons_filtered(pt, global);
        let running = self.get_running_daemons();
        let ghost all = daemon::id_views(running@);
        let ghost wanted = daemon::id_views(configured@);
        let ghost keep = |id: IdView| wanted.contains(id);
        let mut out: Vec<DaemonId> = Vec::new();
        let mut i: usize = 0;
        proof {
            reveal(Seq::filter);
            assert(daemon::id_views(out@) =~= all.take(0).filter(keep));
        }
        while i < running.len()
            invariant
                i <= running@.len(),
                all == daemon::id_views(running@),
                wanted == daemon::id_views(configured@),
                keep == (|id: IdView| wanted.contains(id)),
                daemon::id_views(out@) == all.take(i as int).filter(keep),
            decreases running@.len() - i,
        {
            let id = running[i].clone();
            proof {
                reveal(Seq::filter);
                assert(all.take(i + 1).drop_last() =~= all.take(i as int));
                assert(all.take(i + 1).last() == id@);
                assert(keep(id@) == wanted.contains(id@));
                assert(daemon::id_views(out@.push(id)) =~= daemon::id_views(out@).push(id@));
            }
            if contains_id(&configured, &id) {
                out.push(id);
            }
            i += 1;
        }
        assert(all.take(i as int) =~= all);
        out
    }
}

/// Every configured daemon is either local or global, and none is both.
pub proof fn law_local_and_global_part_the_daemons(configured: Seq<IdView>, id: IdView)
    requires
        configured.contains(id),
    ensures
        configured.filter(|d: IdView| is_global(d)).contains(id) <==> is_global(id),
        configured.filter(|d: IdView| !is_global(d)).contains(id) <==> !is_global(id),
{
    lists::lemma_filter_members(configured, |d: IdView| is_global(d), id);
    lists::lemma_filter_members(configured, |d: IdView| !is_global(d), id);
}

/// A daemon is among those that run exactly if the supervisor knows it as
/// running or waiting; there are as many as are known so, and in that order.
pub proof fn law_running_means_up(daemons: Seq<Daemon>, id: IdView)
    ensures
        running_ids(daemons).contains(id) <==> exists|i: int|
            0 <= i < daemons.len() && (#[trigger] daemons[i]).id@ == id && (daemons[i].status
                is Running || daemons[i].status is Waiting),
        running_ids(daemons) == daemons.filter(
            |d: Daemon| d.status is Running || d.status is Waiting,
        ).map_values(|d: Daemon| d.id@),
    decreases daemons.len(),
{
    reveal(Seq::filter);
    let keep = |d: Daemon| d.status is Running || d.status is Waiting;
    let name = |d: Daemon| d.id@;
    if daemons.len() > 0 {
        let rest = daemons.drop_last();
        law_running_means_up(rest, id);
        lists::lemma_push_contains(running_ids(rest), daemons.last().id@, id);
        assert(rest.filter(keep).push(daemons.last()).map_values(name) =~= rest.filter(
            keep,
        ).map_values(name).push(daemons.last().id@));
        if running_ids(rest).contains(id) {
            let i = choose|i: int|
                0 <= i < rest.len() && (#[trigger] rest[i]).id@ == id && (rest[i].status is Running
                    || rest[i].status is Waiting);
            assert(daemons[i] == rest[i]);
        }
        if keep(daemons.last()) && daemons.last().id@ == id {
            assert(daemons[daemons.len() - 1].id@ == id);
        }
        if exists|i: int|
            0 <= i < daemons.len() && (#[trigger] daemons[i]).id@ == id && (daemons[i].status
                is Running || daemons[i].status is Waiting) {
            let i = choose|i: int|
                0 <= i < daemons.len() && (#[trigger] daemons[i]).id@ == id && (daemons[i].status
                    is Running || daemons[i].status is Waiting);
            if i < rest.len() {
                assert(rest[i].id@ == id);
            }
        }
    } else {
        assert(daemons.filter(keep).map_values(name) =~= Seq::empty());
    }
}

/// A daemon is global exactly if it stands in the namespace of that name.
pub proof fn law_global_is_a_namespace(name: Seq<char>, namespace: Seq<char>)
    ensures
        is_global(IdView { namespace: "global"@, name }),
        namespace != "global"@ ==> !is_global(IdView { namespace, name }),
{
}

/// The daemons that run and are configured: each runs and is configured on the
/// side that was asked for, none that is both is missing, and they stand in the
/// order in which the supervisor names them.
pub proof fn law_running_and_configured_are_both(
    active: Seq<Daemon>,
    configured: Seq<IdView>,
    global: bool,
    id: IdView,
)
    ensures
        ({
            let r = common(
                running_ids(active),
                configured.filter(|d: IdView| is_global(d) == global),
            );
            &&& r.contains(id) <==> running_ids(active).contains(id) && configured.contains(id) && (
            id.namespace == "global"@) == global
            &&& r.len() <= running_ids(active).len()
            &&& (forall|i: int|
                0 <= i < running_ids(active).len() ==> configured.contains(
                    #[trigger] running_ids(active)[i],
                ) && (running_ids(active)[i].namespace == "global"@) == global) ==> r
                == running_ids(active)
        }),
{
    let all = running_ids(active);
    let side = |d: IdView| is_global(d) == global;
    let wanted = configured.filter(side);
    let keep = |d: IdView| wanted.contains(d);
    lists::lemma_filter_members(all, keep, id);
    lists::lemma_filter_members(configured, side, id);
    all.lemma_filter_len(keep);
    if forall|i: int|
        0 <= i < all.len() ==> configured.contains(#[trigger] all[i]) && (all[i].namespace
            == "global"@) == global {
        assert forall|i: int| 0 <= i < all.len() implies keep(#[trigger] all[i]) by {
            lists::lemma_filter_members(configured, side, all[i]);
        }
        lists::lemma_filter_all(all, keep);
    }
}

} // verus!
