//! The processes that listen on ports.
use vstd::prelude::*;

use crate::app::App;
use crate::fuzzy::match_all;
use crate::fuzzy;
use crate::lists;
use crate::text;
use crate::text::number_text;

verus! {

/// A process that listens on a port.
#[derive(Debug)]
pub struct Listener {
    pub name: String,
    pub pid: u32,
    pub port: u16,
}

/// What a search looks through: the name, the process id and the port.
pub open spec fn listener_text(l: Listener) -> Seq<char> {
    l.name@ + " "@ + text::decimal(l.pid as nat) + " "@ + text::decimal(l.port as nat)
}

/// Whether a listener is shown while a text is searched for.
pub open spec fn listener_matches(l: Listener, query: Seq<char>) -> bool {
    query.len() == 0 || fuzzy::fuzzy_matches(listener_text(l), query)
}

impl Listener {
    fn search_text(&self) -> (r: String)
        ensures
            r@ == listener_text(*self),
    {
        let mut text = self.name.clone();
        text.append(" ");
        text.append(number_text(self.pid as u64).as_str());
        text.append(" ");
        text.append(number_text(self.port as u64).as_str());
        text
    }
}

/// The listeners that match, in order.
pub open spec fn matching(listeners: Seq<Listener>, query: Seq<char>) -> Seq<Listener> {
    listeners.filter(|l: Listener| listener_matches(l, query))
}

/// The process of the listener at the place, where there is one.
pub open spec fn pid_at(listeners: Seq<Listener>, place: int) -> Option<u32> {
    if place < listeners.len() {
        Some(listeners[place].pid)
    } else {
        None
    }
}

impl App {
    /// The listeners that are shown.
    pub open spec fn shown_listeners(self) -> Seq<Listener> {
        matching(self.network_listeners@, self.network_search_query@)
    }

    /// All listeners, where nothing is searched for.
    fn all_listeners(&self) -> (r: Vec<&Listener>)
        requires
            self.network_search_query@.len() == 0,
        ensures
            r@.len() == self.shown_listeners().len(),
            forall|i: int|
                0 <= i < r@.len() ==> *(#[trigger] r@[i]) == self.shown_listeners()[i],
    {
        let mut out: Vec<&Listener> = Vec::new();
        let mut i: usize = 0;
        while i < self.network_listeners.len()
            invariant
                i <= self.network_listeners@.len(),
                out@.len() == i,
                forall|k: int| 0 <= k < i ==> *(#[trigger] out@[k]) == self.network_listeners@[k],
            decreases self.network_listeners@.len() - i,
        {
            out.push(&self.network_listeners[i]);
            i += 1;
        }
        proof {
            lists::lemma_filter_all(
                self.network_listeners@,
                |l: Listener| listener_matches(l, self.network_search_query@),
            );
        }
        out
    }

    /// The listeners that match the search, in order.
    pub fn filtered_network_listeners(&self) -> (r: Vec<&Listener>)
        ensures
            r@.len() == self.shown_listeners().len(),
            forall|i: int|
                0 <= i < r@.len() ==> *(#[trigger] r@[i]) == self.shown_listeners()[i],
    {
        let ghost all = self.network_listeners@;
        let ghost query = self.network_search_query@;
        let ghost keep = |l: Listener| listener_matches(l, query);
        if self.network_search_query.as_str().is_empty() {
            return self.all_listeners();
        }
        let mut texts: Vec<String> = Vec::new();
        let mut i: usize = 0;
        while i < self.network_listeners.len()
            invariant
                i <= self.network_listeners@.len(),
                all == self.network_listeners@,
                texts@.len() == i,
                forall|k: int| 0 <= k < i ==> (#[trigger] texts@[k])@ == listener_text(all[k]),
            decreases self.network_listeners@.len() - i,
        {
            texts.push(self.network_listeners[i].search_text());
            i += 1;
        }
        let found = match_all(&texts, self.network_search_query.as_str());
        let mut out: Vec<&Listener> = Vec::new();
        let mut k: usize = 0;
        proof {
            reveal(Seq::filter);
            assert(all.take(0).filter(keep).len() == 0);
        }
        while k < self.network_listeners.len()
            invariant
                k <= self.network_listeners@.len(),
                all == self.network_listeners@,
                query == self.network_search_query@,
                keep == (|l: Listener| listener_matches(l, query)),
                query.len() > 0,
                found@.len() == all.len(),
                forall|j: int|
                    0 <= j < all.len() ==> ((#[trigger] found@[j]) is Some
                        <==> fuzzy::fuzzy_matches(listener_text(all[j]), query)),
                out@.len() == all.take(k as int).filter(keep).len(),
                forall|j: int|
                    0 <= j < out@.len() ==> *(#[trigger] out@[j]) == all.take(k as int).filter(
                        keep,
                    )[j],
            decreases self.network_listeners@.len() - k,
        {
            proof {
                reveal(Seq::filter);
                assert(all.take(k + 1).drop_last() =~= all.take(k as int));
                assert(all.take(k + 1).last() == all[k as int]);
                assert(keep(all[k as int]) == listener_matches(all[k as int], query));
            }
            if found[k].is_some() {
                out.push(&self.network_listeners[k]);
            }
            k += 1;
        }
        assert(all.take(k as int) =~= all);
        out
    }

    fn shown_pid(&self, place: usize) -> (r: Option<u32>)
        ensures
            r == pid_at(self.shown_listeners(), place as int),
    {
        let shown = self.filtered_network_listeners();
        if place < shown.len() {
            Some(shown[place].pid)
        } else {
            None
        }
    }

    /// The state after a fresh list of listeners was taken over. The selection
    /// stays within what is shown.
    pub open spec fn network_refreshed(self, listeners: Vec<Listener>) -> App {
        let shown = matching(listeners@, self.network_search_query@);
        let selected = if shown.len() == 0 {
            0
        } else if self.network_selected >= shown.len() {
            (shown.len() - 1) as usize
        } else {
            self.network_selected
        };
        App {
            network_listeners: listeners,
            network_selected: selected,
            network_selected_pid: pid_at(shown, selected as int),
            ..self
        }
    }

    /// Takes over a fresh list of listeners.
    pub fn apply_network_refresh(&mut self, listeners: Vec<Listener>)
        ensures
            *final(self) == old(self).network_refreshed(listeners),
    {
        self.network_listeners = listeners;
        let count: usize = self.filtered_network_listeners().len();
        if count == 0 {
            self.network_selected = 0;
        } else if self.network_selected >= count {
            self.network_selected = count - 1;
        }
        let pid = self.shown_pid(self.network_selected);
        self.network_selected_pid = pid;
    }

    /// The state with the search as given and the first listener selected.
    pub open spec fn network_searched(self, active: bool, query: String) -> App {
        App {
            network_search_active: active,
            network_search_query: query,
            network_selected: 0,
            network_scroll_offset: 0,
            network_selected_pid: pid_at(matching(self.network_listeners@, query@), 0),
            ..self
        }
    }

    /// Starts a search, or ends it and forgets what was searched for.
    pub fn toggle_network_search(&mut self)
        ensures
            *final(self) == old(self).network_searched(
                !old(self).network_search_active,
                final(self).network_search_query,
            ),
            final(self).network_search_query@ == (if old(self).network_search_active {
                Seq::empty()
            } else {
                old(self).network_search_query@
            }),
    {
        self.network_search_active = !self.network_search_active;
        if !self.network_search_active {
            self.network_search_query = String::new();
            assert(self.network_search_query@ =~= Seq::<char>::empty());
        }
        self.network_selected = 0;
        self.network_scroll_offset = 0;
        let pid = self.shown_pid(0);
        self.network_selected_pid = pid;
    }

    pub fn clear_network_search(&mut self)
        ensures
            *final(self) == old(self).network_searched(false, final(self).network_search_query),
            final(self).network_search_query@ == Seq::<char>::empty(),
    {
        self.network_search_query = String::new();
        assert(self.network_search_query@ =~= Seq::<char>::empty());
        self.network_search_active = false;
        self.network_selected = 0;
        self.network_scroll_offset = 0;
        let pid = self.shown_pid(0);
        self.network_selected_pid = pid;
    }
}

// ---------------------------------------------------------------------------
// Laws
// ---------------------------------------------------------------------------

/// A search by the name, the process or the port finds the listener, and where
/// nothing is searched for, every listener is shown.
pub proof fn law_listeners_are_found(l: Listener)
    ensures
        listener_matches(l, l.name@),
        listener_matches(l, text::decimal(l.pid as nat)),
        listener_matches(l, text::decimal(l.port as nat)),
        listener_matches(l, Seq::empty()),
{
    let none = Seq::<char>::empty();
    let pid = text::decimal(l.pid as nat);
    let port = text::decimal(l.port as nat);
    let all = listener_text(l);
    let behind = " "@ + pid + " "@ + port;
    fuzzy::law_pieces_match(none, l.name@, behind);
    assert(none + l.name@ + behind =~= all);
    let before = l.name@ + " "@;
    let rest = " "@ + port;
    fuzzy::law_pieces_match(before, pid, rest);
    assert(before + pid + rest =~= all);
    let head = l.name@ + " "@ + pid + " "@;
    fuzzy::law_pieces_match(head, port, none);
    assert(head + port + none =~= all);
}

/// What is shown are the listeners that match, all of them and in their order;
/// without a search all are.
pub proof fn law_shown_listeners_match(listeners: Seq<Listener>, query: Seq<char>, l: Listener)
    ensures
        matching(listeners, query).contains(l) <==> listeners.contains(l) && (query.len() == 0
            || fuzzy::fuzzy_matches(
            l.name@ + " "@ + text::decimal(l.pid as nat) + " "@ + text::decimal(l.port as nat),
            query,
        )),
        query.len() == 0 ==> matching(listeners, query) == listeners,
        matching(listeners, query).len() <= listeners.len(),
{
    let keep = |l: Listener| listener_matches(l, query);
    lists::lemma_filter_members(listeners, keep, l);
    listeners.lemma_filter_len(keep);
    if query.len() == 0 {
        lists::lemma_filter_all(listeners, keep);
    }
}

/// After a refresh the selection is one of the shown listeners where there are
/// some: the same place as before where that is still there, else the last.
/// The process that is noted is the selected one's.
pub proof fn law_a_refresh_keeps_the_selection_in_sight(app: App, listeners: Vec<Listener>)
    requires
        listeners@.len() <= usize::MAX,
    ensures
        ({
            let after = app.network_refreshed(listeners);
            let shown = after.shown_listeners();
            &&& after.network_listeners == listeners
            &&& shown == matching(listeners@, app.network_search_query@)
            &&& shown.len() > 0 ==> after.network_selected < shown.len()
                && after.network_selected_pid == Some(shown[after.network_selected as int].pid)
            &&& shown.len() > 0 && app.network_selected < shown.len() ==> after.network_selected
                == app.network_selected
            &&& shown.len() > 0 && app.network_selected >= shown.len() ==> after.network_selected
                == shown.len() - 1
            &&& shown.len() == 0 ==> after.network_selected == 0 && after.network_selected_pid
                is None
            &&& after == (App {
                network_listeners: after.network_listeners,
                network_selected: after.network_selected,
                network_selected_pid: after.network_selected_pid,
                ..app
            })
        }),
{
    let keep = |l: Listener| listener_matches(l, app.network_search_query@);
    listeners@.lemma_filter_len(keep);
}

/// A search begins at the first listener that is shown, and changes nothing but
/// the search and the selection.
pub proof fn law_a_search_begins_at_the_top(app: App, active: bool, query: String)
    ensures
        ({
            let after = app.network_searched(active, query);
            let shown = after.shown_listeners();
            &&& after.network_search_active == active
            &&& after.network_search_query == query
            &&& after.network_listeners == app.network_listeners
            &&& after.network_selected == 0
            &&& after.network_scroll_offset == 0
            &&& shown.len() > 0 ==> after.network_selected_pid == Some(shown[0].pid)
            &&& shown.len() == 0 ==> after.network_selected_pid is None
            &&& after == (App {
                network_search_active: after.network_search_active,
                network_search_query: after.network_search_query,
                network_selected: after.network_selected,
                network_scroll_offset: after.network_scroll_offset,
                network_selected_pid: after.network_selected_pid,
                ..app
            })
        }),
{
}

} // verus!
