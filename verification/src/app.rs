//! The state of the terminal front end, and what each user action makes of it.
use std::collections::HashMap;
use vstd::prelude::*;
use vstd::view::View as _;

use crate::daemon::{Daemon, DaemonId, DaemonListEntry, DaemonStatus, IdSet, IdView, ProcessStats};
use crate::daemon;
use crate::editor::EditorState;
use crate::fuzzy::match_all;
use crate::fuzzy;
use crate::lists;
use crate::network::Listener;
use crate::order::{listing, KeyView, SortKey};
use crate::order;
use crate::stats::{HistoryMap, StatsHistory, StatsSnapshot};
use crate::stats;
use crate::text;
use crate::text::{chars_of, contains_text, lines_of, to_lowercase};

verus! {

// ---------------------------------------------------------------------------
// Types
// ---------------------------------------------------------------------------

/// What the screen shows.
#[derive(Debug, Clone, Copy, PartialEq, Eq, Structural)]
pub enum View {
    Dashboard,
    Logs,
    Network,
    Help,
    Confirm,
    Details,
    ConfigEditor,
    ConfigFileSelect,
}

/// The choice of a configuration file.
#[derive(Debug, Clone)]
pub struct ConfigFileSelector {
    pub files: Vec<String>,
    pub selected: usize,
}

/// What is done once the user has confirmed it.
#[derive(Debug, Clone)]
pub enum PendingAction {
    Stop(DaemonId),
    Restart(DaemonId),
    Disable(DaemonId),
    BatchStop(Vec<DaemonId>),
    BatchRestart(Vec<DaemonId>),
    BatchDisable(Vec<DaemonId>),
    DeleteDaemon { id: String, config_path: String },
    DiscardEditorChanges,
}

/// What the list of daemons is ordered by.
#[derive(Debug, Clone, Copy, PartialEq, Eq, Structural)]
pub enum SortColumn {
    Name,
    Status,
    Cpu,
    Memory,
    Uptime,
}

impl Default for SortColumn {
    fn default() -> (r: Self)
        ensures
            r == SortColumn::Name,
    {
        SortColumn::Name
    }
}

impl SortColumn {
    pub open spec fn following(self) -> SortColumn {
        match self {
            SortColumn::Name => SortColumn::Status,
            SortColumn::Status => SortColumn::Cpu,
            SortColumn::Cpu => SortColumn::Memory,
            SortColumn::Memory => SortColumn::Uptime,
            SortColumn::Uptime => SortColumn::Name,
        }
    }

    pub fn next(self) -> (r: Self)
        ensures
            r == self.following(),
    {
        match self {
            SortColumn::Name => SortColumn::Status,
            SortColumn::Status => SortColumn::Cpu,
            SortColumn::Cpu => SortColumn::Memory,
            SortColumn::Memory => SortColumn::Uptime,
            SortColumn::Uptime => SortColumn::Name,
        }
    }
}

#[derive(Debug, Clone, Copy, PartialEq, Eq, Structural)]
pub enum SortOrder {
    Ascending,
    Descending,
}

impl Default for SortOrder {
    fn default() -> (r: Self)
        ensures
            r == SortOrder::Ascending,
    {
        SortOrder::Ascending
    }
}

impl SortOrder {
    pub open spec fn reversed(self) -> SortOrder {
        match self {
            SortOrder::Ascending => SortOrder::Descending,
            SortOrder::Descending => SortOrder::Ascending,
        }
    }

    pub fn toggle(self) -> (r: Self)
        ensures
            r == self.reversed(),
    {
        match self {
            SortOrder::Ascending => SortOrder::Descending,
            SortOrder::Descending => SortOrder::Ascending,
        }
    }

    /// The arrow at the column's head.
    pub fn indicator(self) -> (r: &'static str)
        ensures
            r@ == (match self {
                SortOrder::Ascending => "↑"@,
                SortOrder::Descending => "↓"@,
            }),
    {
        match self {
            SortOrder::Ascending => "↑",
            SortOrder::Descending => "↓",
        }
    }
}

/// The state of the terminal front end.
#[derive(Debug)]
pub struct App {
    pub daemons: Vec<Daemon>,
    pub disabled: Vec<DaemonId>,
    /// The place in the list as it is shown.
    pub selected: usize,
    pub view: View,
    pub prev_view: View,
    pub log_content: Vec<String>,
    pub log_daemon_id: Option<DaemonId>,
    /// The last line that is shown, counted from one.
    pub log_scroll: usize,
    /// Whether the end of the log is kept in view.
    pub log_follow: bool,
    pub message: Option<String>,
    /// When the message was set, in nanoseconds of a clock that never goes back.
    pub message_time: Option<u128>,
    /// What each process uses, by process id.
    pub process_stats: HashMap<u32, ProcessStats>,
    pub stats_history: HistoryMap,
    pub pending_action: Option<PendingAction>,
    pub loading_text: Option<String>,
    pub search_query: String,
    pub search_active: bool,
    pub sort_column: SortColumn,
    pub sort_order: SortOrder,
    pub log_search_query: String,
    pub log_search_active: bool,
    /// The lines that match, counted from zero.
    pub log_search_matches: Vec<usize>,
    pub log_search_current: usize,
    pub details_daemon_id: Option<DaemonId>,
    /// Whether the log fills the screen.
    pub logs_expanded: bool,
    pub multi_select: IdSet,
    /// Daemons that are configured but not known to the supervisor.
    pub config_daemon_ids: IdSet,
    pub show_available: bool,
    pub editor_state: Option<EditorState>,
    pub file_selector: Option<ConfigFileSelector>,
    pub network_listeners: Vec<Listener>,
    pub network_search_query: String,
    pub network_search_active: bool,
    pub network_selected: usize,
    pub network_scroll_offset: usize,
    /// The selected process.
    pub network_selected_pid: Option<u32>,
    pub network_visible_rows: usize,
}

impl App {
    /// The state at the start: nothing known, nothing typed, the dashboard shown.
    pub open spec fn is_initial(self) -> bool {
        &&& self.daemons@.len() == 0
        &&& self.disabled@.len() == 0
        &&& self.selected == 0
        &&& self.view == View::Dashboard
        &&& self.prev_view == View::Dashboard
        &&& self.log_content@.len() == 0
        &&& self.log_daemon_id is None
        &&& self.log_scroll == 1
        &&& self.log_follow
        &&& self.message is None
        &&& self.message_time is None
        &&& self.process_stats@ == Map::<u32, ProcessStats>::empty()
        &&& self.stats_history@ == Map::<IdView, Seq<StatsSnapshot>>::empty()
        &&& self.pending_action is None
        &&& self.loading_text is None
        &&& self.search_query@.len() == 0
        &&& !self.search_active
        &&& self.sort_column == SortColumn::Name
        &&& self.sort_order == SortOrder::Ascending
        &&& self.log_search_query@.len() == 0
        &&& !self.log_search_active
        &&& self.log_search_matches@.len() == 0
        &&& self.log_search_current == 0
        &&& self.details_daemon_id is None
        &&& !self.logs_expanded
        &&& self.multi_select@ == Set::<IdView>::empty()
        &&& self.config_daemon_ids@ == Set::<IdView>::empty()
        &&& self.show_available
        &&& self.editor_state is None
        &&& self.file_selector is None
        &&& self.network_listeners@.len() == 0
        &&& self.network_search_query@.len() == 0
        &&& !self.network_search_active
        &&& self.network_selected == 0
        &&& self.network_scroll_offset == 0
        &&& self.network_selected_pid is None
        &&& self.network_visible_rows == 20
    }

    pub fn new() -> (r: Self)
        ensures
            r.is_initial(),
    {
        App {
            daemons: Vec::new(),
            disabled: Vec::new(),
            selected: 0,
            view: View::Dashboard,
            prev_view: View::Dashboard,
            log_content: Vec::new(),
            log_daemon_id: None,
            log_scroll: 1,
            log_follow: true,
            message: None,
            message_time: None,
            process_stats: HashMap::new(),
            stats_history: HistoryMap::new(),
            pending_action: None,
            loading_text: None,
            search_query: String::new(),
            search_active: false,
            sort_column: SortColumn::Name,
            sort_order: SortOrder::Ascending,
            log_search_query: String::new(),
            log_search_active: false,
            log_search_matches: Vec::new(),
            log_search_current: 0,
            details_daemon_id: None,
            logs_expanded: false,
            multi_select: IdSet::new(),
            config_daemon_ids: IdSet::new(),
            show_available: true,
            editor_state: None,
            file_selector: None,
            network_listeners: Vec::new(),
            network_search_query: String::new(),
            network_search_active: false,
            network_selected: 0,
            network_scroll_offset: 0,
            network_selected_pid: None,
            network_visible_rows: 20,
        }
    }

    // -----------------------------------------------------------------------
    // Confirmation and messages
    // -----------------------------------------------------------------------

    /// The state while the user is asked to confirm an action.
    pub open spec fn asking(self, action: PendingAction) -> App {
        App {
            pending_action: Some(action),
            prev_view: self.view,
            view: View::Confirm,
            ..self
        }
    }

    /// The state after the user has answered: no action waits, and what was
    /// shown before is shown again.
    pub open spec fn answered(self) -> App {
        App { pending_action: None, view: self.prev_view, ..self }
    }

    /// Asks the user to confirm an action.
    pub fn confirm_action(&mut self, action: PendingAction)
        ensures
            *final(self) == old(self).asking(action),
    {
        self.pending_action = Some(action);
        self.prev_view = self.view;
        self.view = View::Confirm;
    }

    /// Drops the action that waits for confirmation.
    pub fn cancel_confirm(&mut self)
        ensures
            *final(self) == old(self).answered(),
    {
        self.pending_action = None;
        self.view = self.prev_view;
    }

    /// Takes the action that was confirmed.
    pub fn take_pending_action(&mut self) -> (r: Option<PendingAction>)
        ensures
            r == old(self).pending_action,
            *final(self) == old(self).answered(),
    {
        self.view = self.prev_view;
        self.pending_action.take()
    }

    pub fn start_loading(&mut self, text: String)
        ensures
            *final(self) == (App { loading_text: Some(text), ..*old(self) }),
    {
        self.loading_text = Some(text);
    }

    pub fn stop_loading(&mut self)
        ensures
            *final(self) == (App { loading_text: None, ..*old(self) }),
    {
        self.loading_text = None;
    }

    pub fn set_message(&mut self, msg: String, now: u128)
        ensures
            *final(self) == (App {
                message: Some(msg),
                message_time: Some(now),
                ..*old(self)
            }),
    {
        self.message = Some(msg);
        self.message_time = Some(now);
    }

    /// Whether a message has been there for the duration.
    pub open spec fn message_is_stale(self, now: u128, duration: u128) -> bool {
        match self.message_time {
            Some(time) => if now >= time {
                now - time >= duration
            } else {
                duration == 0
            },
            None => false,
        }
    }

    /// Drops a message that has been there for the duration.
    pub fn clear_stale_message(&mut self, now: u128, duration: u128)
        ensures
            *final(self) == (if old(self).message_is_stale(now, duration) {
                App { message: None, message_time: None, ..*old(self) }
            } else {
                *old(self)
            }),
    {
        if let Some(time) = self.message_time {
            let elapsed: u128 = if now >= time {
                now - time
            } else {
                0
            };
            if elapsed >= duration {
                self.message = None;
                self.message_time = None;
            }
        }
    }
}

impl Default for App {
    fn default() -> (r: Self)
        ensures
            r.is_initial(),
    {
        App::new()
    }
}

// ---------------------------------------------------------------------------
// Searching and sorting the list
// ---------------------------------------------------------------------------

impl App {
    pub fn start_search(&mut self)
        ensures
            *final(self) == (App { search_active: true, ..*old(self) }),
    {
        self.search_active = true;
    }

    pub fn end_search(&mut self)
        ensures
            *final(self) == (App { search_active: false, ..*old(self) }),
    {
        self.search_active = false;
    }

    pub fn clear_search(&mut self)
        ensures
            final(self).search_query@.len() == 0,
            *final(self) == (App {
                search_query: final(self).search_query,
                search_active: false,
                selected: 0,
                ..*old(self)
            }),
    {
        self.search_query = String::new();
        self.search_active = false;
        self.selected = 0;
    }

    pub fn search_push(&mut self, c: char)
        ensures
            final(self).search_query@ == old(self).search_query@.push(c),
            *final(self) == (App {
                search_query: final(self).search_query,
                selected: 0,
                ..*old(self)
            }),
    {
        self.search_query.push(c);
        self.selected = 0;
    }

    pub fn search_pop(&mut self)
        ensures
            final(self).search_query@ == text::without_last(old(self).search_query@),
            *final(self) == (App {
                search_query: final(self).search_query,
                selected: 0,
                ..*old(self)
            }),
    {
        let _ = self.search_query.pop();
        self.selected = 0;
    }

    /// Goes on to the next column.
    pub fn cycle_sort(&mut self)
        ensures
            *final(self) == (App {
                sort_column: old(self).sort_column.following(),
                selected: 0,
                ..*old(self)
            }),
    {
        self.sort_column = self.sort_column.next();
        self.selected = 0;
    }

    pub fn toggle_sort_order(&mut self)
        ensures
            *final(self) == (App {
                sort_order: old(self).sort_order.reversed(),
                selected: 0,
                ..*old(self)
            }),
    {
        self.sort_order = self.sort_order.toggle();
        self.selected = 0;
    }

    /// What the process uses, where that is known.
    pub fn get_stats(&self, pid: u32) -> (r: Option<&ProcessStats>)
        ensures
            match r {
                Some(s) => self.stats_of(pid) == Some(*s),
                None => self.stats_of(pid) is None,
            },
    {
        broadcast use vstd::std_specs::hash::group_hash_axioms;

        self.process_stats.get(&pid)
    }

    pub open spec fn stats_of(self, pid: u32) -> Option<ProcessStats> {
        if self.process_stats@.contains_key(pid) {
            Some(self.process_stats@[pid])
        } else {
            None
        }
    }

    /// What the daemon uses, where that is known.
    pub open spec fn use_of(self, d: Daemon) -> Option<ProcessStats> {
        match d.pid {
            Some(pid) => self.stats_of(pid),
            None => None,
        }
    }

    /// What the daemon is ordered by: its name in small letters, its state, or
    /// a figure, which is zero where it is not known.
    pub open spec fn sort_key(self, d: Daemon) -> KeyView {
        match self.sort_column {
            SortColumn::Name => KeyView::Text(text::lowercase(d.id@.qualified())),
            SortColumn::Status => KeyView::Number(
                match d.status {
                    DaemonStatus::Running => 0,
                    DaemonStatus::Waiting => 1,
                    DaemonStatus::Stopping => 2,
                    DaemonStatus::Stopped => 3,
                    DaemonStatus::Errored(_) => 4,
                    DaemonStatus::Failed(_) => 5,
                },
            ),
            SortColumn::Cpu => match self.use_of(d) {
                Some(s) => match daemon::cpu_rank(s.cpu_bits) {
                    Some(rank) => KeyView::Number(rank),
                    None => KeyView::Unordered,
                },
                None => KeyView::Number(0),
            },
            SortColumn::Memory => KeyView::Number(
                match self.use_of(d) {
                    Some(s) => s.memory_bytes as int,
                    None => 0,
                },
            ),
            SortColumn::Uptime => KeyView::Number(
                match self.use_of(d) {
                    Some(s) => s.uptime_secs as int,
                    None => 0,
                },
            ),
        }
    }

    pub open spec fn sort_keys(self) -> Seq<KeyView> {
        self.daemons@.map_values(|d: Daemon| self.sort_key(d))
    }

    /// The names that are searched.
    pub open spec fn names(self) -> Seq<Seq<char>> {
        self.daemons@.map_values(|d: Daemon| d.id@.qualified())
    }

    /// How well each daemon matches the search; all alike where nothing is searched.
    pub open spec fn scores(self) -> Seq<Option<i64>> {
        if self.search_query@.len() == 0 {
            self.daemons@.map_values(|d: Daemon| Some(0i64))
        } else {
            fuzzy::fuzzy_scores(self.names(), self.search_query@)
        }
    }

    /// Whether the daemon at the place is shown: its name matches the search.
    pub open spec fn is_visible(self, i: int) -> bool {
        self.search_query@.len() == 0 || fuzzy::fuzzy_matches(
            self.daemons@[i].id@.qualified(),
            self.search_query@,
        )
    }

    /// How many of the first `n` daemons are shown.
    pub open spec fn visible_among(self, n: int) -> nat
        decreases n,
    {
        if n <= 0 {
            0
        } else {
            self.visible_among(n - 1) + (if self.is_visible(n - 1) {
                1nat
            } else {
                0nat
            })
        }
    }

    /// How many daemons are shown.
    pub open spec fn visible_count(self) -> nat {
        self.visible_among(self.daemons@.len() as int)
    }

    /// Whether the daemons with a score are those that are shown.
    pub open spec fn scored_are_visible(self) -> bool {
        forall|i: int|
            0 <= i < self.daemons@.len() ==> ((#[trigger] self.scores()[i]) is Some
                <==> self.is_visible(i))
    }

    /// Whether the places are those of the shown daemons, in the order in which
    /// they are shown: by the column, the better match first among equals.
    pub open spec fn is_shown_order(self, places: Seq<usize>) -> bool {
        order::is_listing(
            places,
            self.sort_keys(),
            self.scores(),
            self.sort_order == SortOrder::Descending,
        )
    }

    fn key_of(&self, d: &Daemon) -> (r: SortKey)
        ensures
            r@ == self.sort_key(*d),
    {
        let found: Option<ProcessStats> = match d.pid {
            Some(pid) => match self.get_stats(pid) {
                Some(s) => Some(*s),
                None => None,
            },
            None => None,
        };
        match self.sort_column {
            SortColumn::Name => SortKey::Text(
                chars_of(to_lowercase(d.id.qualified().as_str()).as_str()),
            ),
            SortColumn::Status => SortKey::Number(
                match &d.status {
                    DaemonStatus::Running => 0,
                    DaemonStatus::Waiting => 1,
                    DaemonStatus::Stopping => 2,
                    DaemonStatus::Stopped => 3,
                    DaemonStatus::Errored(_) => 4,
                    DaemonStatus::Failed(_) => 5,
                },
            ),
            SortColumn::Cpu => match found {
                Some(s) => match s.cpu_order() {
                    Some(rank) => SortKey::Number(rank),
                    None => SortKey::Unordered,
                },
                None => SortKey::Number(0),
            },
            SortColumn::Memory => SortKey::Number(
                match found {
                    Some(s) => s.memory_bytes as i128,
                    None => 0,
                },
            ),
            SortColumn::Uptime => SortKey::Number(
                match found {
                    Some(s) => s.uptime_secs as i128,
                    None => 0,
                },
            ),
        }
    }

    fn search_scores(&self) -> (r: Vec<Option<i64>>)
        ensures
            r@ == self.scores(),
            r@.len() == self.daemons@.len(),
            forall|i: int|
                0 <= i < r@.len() ==> ((#[trigger] r@[i]) is Some <==> self.is_visible(i)),
    {
        if self.search_query.as_str().is_empty() {
            let mut out: Vec<Option<i64>> = Vec::new();
            let mut i: usize = 0;
            while i < self.daemons.len()
                invariant
                    i <= self.daemons@.len(),
                    out@.len() == i,
                    forall|k: int| 0 <= k < i ==> #[trigger] out@[k] == Some(0i64),
                decreases self.daemons@.len() - i,
            {
                out.push(Some(0));
                i += 1;
            }
            assert(out@ =~= self.scores());
            out
        } else {
            let mut names: Vec<String> = Vec::new();
            let mut i: usize = 0;
            while i < self.daemons.len()
                invariant
                    i <= self.daemons@.len(),
                    names@.len() == i,
                    forall|k: int| 0 <= k < i ==> (#[trigger] names@[k])@ == self.names()[k],
                decreases self.daemons@.len() - i,
            {
                names.push(self.daemons[i].id.qualified());
                i += 1;
            }
            assert(text::views(names@) =~= self.names());
            match_all(&names, self.search_query.as_str())
        }
    }

    /// The places of the daemons that are shown, in the order in which they are shown.
    pub fn filtered_places(&self) -> (r: Vec<usize>)
        ensures
            self.scores().len() == self.daemons@.len(),
            self.scored_are_visible(),
            self.is_shown_order(r@),
            r@.len() == self.visible_count(),
            forall|i: usize| #[trigger]
                r@.contains(i) <==> i < self.daemons@.len() && self.is_visible(i as int),
    {
        let scores = self.search_scores();
        let mut keys: Vec<SortKey> = Vec::new();
        let mut i: usize = 0;
        while i < self.daemons.len()
            invariant
                i <= self.daemons@.len(),
                keys@.len() == i,
                forall|k: int| 0 <= k < i ==> (#[trigger] keys@[k])@ == self.sort_keys()[k],
            decreases self.daemons@.len() - i,
        {
            keys.push(self.key_of(&self.daemons[i]));
            i += 1;
        }
        assert(order::key_views(keys@) =~= self.sort_keys());
        let descending = match self.sort_order {
            SortOrder::Ascending => false,
            SortOrder::Descending => true,
        };
        let r = listing(&keys, &scores, descending);
        proof {
            assert forall|i: usize| #[trigger] r@.contains(i) <==> i < self.daemons@.len()
                && self.is_visible(i as int) by {}
            self.lemma_visible_count(r@, self.daemons@.len() as int);
        }
        r
    }

    proof fn lemma_visible_count(self, places: Seq<usize>, n: int)
        requires
            0 <= n <= usize::MAX,
            places.no_duplicates(),
            forall|i: usize| #[trigger] places.contains(i) <==> i < n && self.is_visible(i as int),
        ensures
            places.len() == self.visible_among(n),
        decreases n,
    {
        if n == 0 {
            if places.len() > 0 {
                assert(places.contains(places[0]));
            }
        } else {
            let last = (n - 1) as usize;
            if self.is_visible(n - 1) {
                assert(places.contains(last));
                let k = places.index_of(last);
                let rest = places.remove(k);
                assert forall|i: usize| #[trigger] rest.contains(i) <==> i < n - 1
                    && self.is_visible(i as int) by {
                    if rest.contains(i) {
                        let j = choose|j: int| 0 <= j < rest.len() && rest[j] == i;
                        let m = if j < k {
                            j
                        } else {
                            j + 1
                        };
                        assert(places[m] == i);
                        assert(places.contains(i));
                    }
                    if i < n - 1 && self.is_visible(i as int) {
                        assert(places.contains(i));
                        let m = choose|m: int| 0 <= m < places.len() && places[m] == i;
                        let j = if m < k {
                            m
                        } else {
                            m - 1
                        };
                        assert(rest[j] == i);
                    }
                }
                self.lemma_visible_count(rest, n - 1);
            } else {
                assert forall|i: usize| #[trigger] places.contains(i) <==> i < n - 1
                    && self.is_visible(i as int) by {}
                self.lemma_visible_count(places, n - 1);
            }
        }
    }

    /// The daemons that are shown, in the order in which they are shown.
    pub fn filtered_daemons(&self) -> (r: Vec<&Daemon>)
        ensures
            self.scores().len() == self.daemons@.len(),
            self.scored_are_visible(),
            r@.len() == self.visible_count(),
            exists|places: Seq<usize>| #[trigger]
                self.is_shown_order(places) && places.len() == r@.len() && forall|i: int|
                    0 <= i < r@.len() ==> *(#[trigger] r@[i]) == self.daemons@[places[i] as int],
    {
        let places = self.filtered_places();
        let mut out: Vec<&Daemon> = Vec::new();
        let mut i: usize = 0;
        while i < places.len()
            invariant
                i <= places@.len(),
                out@.len() == i,
                forall|p: usize| #[trigger] places@.contains(p) ==> p < self.daemons@.len(),
                forall|k: int| 0 <= k < i ==> *(#[trigger] out@[k]) == self.daemons@[places@[k] as int],
            decreases places@.len() - i,
        {
            assert(places@.contains(places@[i as int]));
            out.push(&self.daemons[places[i]]);
            i += 1;
        }
        assert(self.is_shown_order(places@));
        out
    }
}

// ---------------------------------------------------------------------------
// Selecting
// ---------------------------------------------------------------------------

impl App {
    /// The daemon at the selected place of the list, where there is one.
    pub fn selected_daemon(&self) -> (r: Option<&Daemon>)
        ensures
            self.scores().len() == self.daemons@.len(),
            self.scored_are_visible(),
            r is Some <==> self.selected < self.visible_count(),
            exists|places: Seq<usize>| #[trigger]
                self.is_shown_order(places) && places.len() == self.visible_count() && (r
                    matches Some(d) ==> *d == self.daemons@[places[self.selected as int] as int]),
    {
        let places = self.filtered_places();
        assert(self.is_shown_order(places@));
        if self.selected < places.len() {
            assert(places@.contains(places@[self.selected as int]));
            Some(&self.daemons[places[self.selected]])
        } else {
            None
        }
    }

    /// Goes on to the next daemon of the list, and from the last to the first.
    pub fn select_next(&mut self)
        requires
            old(self).visible_count() > 0 ==> old(self).selected < usize::MAX,
        ensures
            *final(self) == (App {
                selected: next_place(old(self).selected, old(self).visible_count()),
                ..*old(self)
            }),
    {
        let count: usize = self.filtered_places().len();
        if count > 0 {
            self.selected = (self.selected + 1) % count;
        }
    }

    /// Goes back to the previous daemon of the list, and from the first to the last.
    pub fn select_prev(&mut self)
        ensures
            *final(self) == (App {
                selected: prev_place(old(self).selected, old(self).visible_count()),
                ..*old(self)
            }),
    {
        let count: usize = self.filtered_places().len();
        if count > 0 {
            self.selected = if self.selected == 0 {
                count - 1
            } else {
                self.selected - 1
            };
        }
    }

    /// Marks the selected daemon, or takes its mark away.
    pub fn toggle_select(&mut self)
        ensures
            old(self).scores().len() == old(self).daemons@.len(),
            old(self).scored_are_visible(),
            *final(self) == (App { multi_select: final(self).multi_select, ..*old(self) }),
            old(self).selected >= old(self).visible_count() ==> final(self).multi_select@ == old(
                self,
            ).multi_select@,
            exists|places: Seq<usize>| #[trigger]
                old(self).is_shown_order(places) && places.len() == old(self).visible_count() && (
                old(self).selected < places.len() ==> {
                    let id = old(self).daemons@[places[old(self).selected as int] as int].id@;
                    final(self).multi_select@ == (if old(self).multi_select@.contains(id) {
                        old(self).multi_select@.remove(id)
                    } else {
                        old(self).multi_select@.insert(id)
                    })
                }),
    {
        let places = self.filtered_places();
        assert(old(self).is_shown_order(places@));
        if self.selected < places.len() {
            assert(places@.contains(places@[self.selected as int]));
            let id = self.daemons[places[self.selected]].id.clone();
            if self.multi_select.contains(&id) {
                self.multi_select.remove(&id);
            } else {
                self.multi_select.insert(id);
            }
        }
    }

    /// Marks all daemons that are shown.
    pub fn select_all_visible(&mut self)
        ensures
            *final(self) == (App { multi_select: final(self).multi_select, ..*old(self) }),
            forall|id: IdView| #[trigger]
                final(self).multi_select@.contains(id) <==> old(self).multi_select@.contains(id)
                    || exists|i: int|
                    0 <= i < old(self).daemons@.len() && old(self).is_visible(i) && (
                    #[trigger] old(self).daemons@[i]).id@ == id,
    {
        let places = self.filtered_places();
        let ghost start = *self;
        let n: usize = self.daemons.len();
        let mut k: usize = 0;
        while k < places.len()
            invariant
                k <= places@.len(),
                n == start.daemons@.len(),
                *self == (App { multi_select: self.multi_select, ..start }),
                forall|p: usize| #[trigger]
                    places@.contains(p) <==> p < start.daemons@.len() && start.is_visible(p as int),
                forall|id: IdView| #[trigger]
                    self.multi_select@.contains(id) <==> start.multi_select@.contains(id)
                        || exists|j: int|
                        0 <= j < k && start.daemons@[(#[trigger] places@[j]) as int].id@ == id,
            decreases places@.len() - k,
        {
            assert(places@.contains(places@[k as int]));
            let id = self.daemons[places[k]].id.clone();
            let ghost before = self.multi_select@;
            self.multi_select.insert(id);
            proof {
                assert forall|v: IdView| #[trigger] self.multi_select@.contains(v)
                    <==> start.multi_select@.contains(v) || exists|j: int|
                    0 <= j < k + 1 && start.daemons@[(#[trigger] places@[j]) as int].id@ == v by {
                    if before.contains(v) && !start.multi_select@.contains(v) {
                        let j = choose|j: int|
                            0 <= j < k && start.daemons@[(#[trigger] places@[j]) as int].id@ == v;
                        assert(start.daemons@[places@[j] as int].id@ == v);
                    }
                    if v == id@ {
                        assert(start.daemons@[places@[k as int] as int].id@ == v);
                    }
                }
            }
            k += 1;
        }
        proof {
            assert forall|id: IdView| #[trigger] self.multi_select@.contains(id)
                <==> start.multi_select@.contains(id) || exists|i: int|
                0 <= i < start.daemons@.len() && start.is_visible(i) && (
                #[trigger] start.daemons@[i]).id@ == id by {
                if exists|j: int|
                    0 <= j < k && start.daemons@[(#[trigger] places@[j]) as int].id@ == id {
                    let j = choose|j: int|
                        0 <= j < k && start.daemons@[(#[trigger] places@[j]) as int].id@ == id;
                    assert(places@.contains(places@[j]));
                    let i = places@[j] as int;
                    assert(start.daemons@[i].id@ == id);
                }
                if exists|i: int|
                    0 <= i < start.daemons@.len() && start.is_visible(i) && (
                    #[trigger] start.daemons@[i]).id@ == id {
                    let i = choose|i: int|
                        0 <= i < start.daemons@.len() && start.is_visible(i) && (
                        #[trigger] start.daemons@[i]).id@ == id;
                    assert(places@.contains(i as usize));
                    let j = choose|j: int| 0 <= j < places@.len() && places@[j] == i as usize;
                    assert(start.daemons@[places@[j] as int].id@ == id);
                }
            }
        }
    }

    pub fn clear_selection(&mut self)
        ensures
            *final(self) == (App { multi_select: final(self).multi_select, ..*old(self) }),
            final(self).multi_select@ == Set::<IdView>::empty(),
    {
        self.multi_select.clear();
    }

    pub fn is_selected(&self, daemon_id: &DaemonId) -> (r: bool)
        ensures
            r == self.multi_select@.contains(daemon_id@),
    {
        self.multi_select.contains(daemon_id)
    }

    pub fn has_selection(&self) -> (r: bool)
        ensures
            r == (self.multi_select@.len() > 0),
    {
        self.multi_select.len() > 0
    }

    /// The marked daemons, each once, in no particular order.
    pub fn selected_daemon_ids(&self) -> (r: Vec<DaemonId>)
        ensures
            daemon::id_views(r@).no_duplicates(),
            daemon::id_views(r@).to_set() == self.multi_select@,
    {
        self.multi_select.to_vec()
    }

    /// Whether a daemon is configured but not known to the supervisor.
    pub fn is_config_only(&self, daemon_id: &DaemonId) -> (r: bool)
        ensures
            r == self.config_daemon_ids@.contains(daemon_id@),
    {
        self.config_daemon_ids.contains(daemon_id)
    }

    pub fn is_disabled(&self, daemon_id: &DaemonId) -> (r: bool)
        ensures
            r == daemon::id_views(self.disabled@).contains(daemon_id@),
    {
        daemon::contains_id(&self.disabled, daemon_id)
    }

    pub fn toggle_show_available(&mut self)
        ensures
            *final(self) == (App { show_available: !old(self).show_available, ..*old(self) }),
    {
        self.show_available = !self.show_available;
    }

    fn total_daemon_count(&self) -> (r: usize)
        ensures
            r == self.visible_count(),
    {
        self.filtered_places().len()
    }

    /// The history of a daemon, where there is one.
    pub fn get_stats_history(&self, daemon_id: &DaemonId) -> (r: Option<&StatsHistory>)
        ensures
            match r {
                Some(h) => self.stats_history@.dom().contains(daemon_id@) && h@
                    == self.stats_history@[daemon_id@],
                None => !self.stats_history@.dom().contains(daemon_id@),
            },
    {
        self.stats_history.get(daemon_id)
    }
}

/// The place behind the given one of `count` places; the first behind the last.
pub open spec fn next_place(place: usize, count: nat) -> usize {
    if count == 0 {
        place
    } else {
        ((place + 1) as nat % count) as usize
    }
}

/// The place before the given one of `count` places; the last before the first.
pub open spec fn prev_place(place: usize, count: nat) -> usize {
    if count == 0 {
        place
    } else if place == 0 {
        (count - 1) as usize
    } else {
        (place - 1) as usize
    }
}

/// Going on and back again, or back and on again, ends where it began, and
/// never leaves the list.
pub proof fn law_next_and_prev_undo_each_other(place: usize, count: nat)
    requires
        place < count <= usize::MAX,
    ensures
        next_place(place, count) < count,
        prev_place(place, count) < count,
        prev_place(next_place(place, count), count) == place,
        next_place(prev_place(place, count), count) == place,
{
    if place + 1 < count {
        vstd::arithmetic::div_mod::lemma_small_mod((place + 1) as nat, count);
    } else {
        vstd::arithmetic::div_mod::lemma_mod_self_0(count as int);
    }
    if place > 0 {
        vstd::arithmetic::div_mod::lemma_small_mod(place as nat, count);
    } else {
        vstd::arithmetic::div_mod::lemma_mod_self_0(count as int);
    }
}

// ---------------------------------------------------------------------------
// Logs
// ---------------------------------------------------------------------------

/// The larger of the number and one.
pub open spec fn at_least_one(n: int) -> usize {
    if n < 1 {
        1
    } else {
        n as usize
    }
}

/// The number, moved into the range from one to `max`.
pub open spec fn within(n: int, max: nat) -> usize {
    if n < 1 {
        1
    } else if n > max {
        max as usize
    } else {
        n as usize
    }
}

/// What is shown of a log file: its lines, or a note where there is no file.
pub open spec fn shown_log(log: Option<Seq<char>>) -> Seq<Seq<char>> {
    match log {
        Some(content) => text::lines(content),
        None => seq!["No logs available"@],
    }
}

/// The places of the lines in which the text occurs, in order.
pub fn matching_lines(lines: &Vec<String>, needle: &str) -> (r: Vec<usize>)
    ensures
        forall|a: int, b: int| 0 <= a < b < r@.len() ==> (#[trigger] r@[a]) < (#[trigger] r@[b]),
        forall|i: usize| #[trigger]
            r@.contains(i) <==> i < lines@.len() && text::occurs(lines@[i as int]@, needle@),
{
    let mut out: Vec<usize> = Vec::new();
    let mut i: usize = 0;
    while i < lines.len()
        invariant
            i <= lines@.len(),
            forall|a: int| 0 <= a < out@.len() ==> (#[trigger] out@[a]) < i,
            forall|a: int, b: int|
                0 <= a < b < out@.len() ==> (#[trigger] out@[a]) < (#[trigger] out@[b]),
            forall|p: usize| #[trigger]
                out@.contains(p) <==> p < i && text::occurs(lines@[p as int]@, needle@),
        decreases lines@.len() - i,
    {
        let ghost before = out@;
        if contains_text(lines[i].as_str(), needle) {
            out.push(i);
            proof {
                assert forall|p: usize| #[trigger] before.push(i).contains(p) == (before.contains(
                    p,
                ) || p == i) by {
                    lists::lemma_push_contains(before, i, p);
                }
            }
        }
        i += 1;
    }
    out
}

impl App {
    /// Switches following on or off; switched on, it jumps to the end.
    pub fn toggle_log_follow(&mut self)
        ensures
            *final(self) == (App {
                log_follow: !old(self).log_follow,
                log_scroll: if !old(self).log_follow && old(self).log_content@.len() > 0 {
                    old(self).log_content@.len() as usize
                } else {
                    old(self).log_scroll
                },
                ..*old(self)
            }),
    {
        self.log_follow = !self.log_follow;
        if self.log_follow && self.log_content.len() > 0 {
            self.log_scroll = self.log_content.len();
        }
    }

    pub fn toggle_logs_expanded(&mut self)
        ensures
            *final(self) == (App { logs_expanded: !old(self).logs_expanded, ..*old(self) }),
    {
        self.logs_expanded = !self.logs_expanded;
    }

    pub fn scroll_logs_down(&mut self)
        requires
            old(self).log_content@.len() > 0,
            old(self).log_scroll < usize::MAX,
        ensures
            *final(self) == (App {
                log_scroll: within(old(self).log_scroll + 1, old(self).log_content@.len()),
                ..*old(self)
            }),
    {
        let max: usize = self.log_content.len();
        let next: usize = self.log_scroll + 1;
        self.log_scroll = if next > max {
            max
        } else {
            next
        };
    }

    pub fn scroll_logs_up(&mut self)
        ensures
            *final(self) == (App {
                log_scroll: at_least_one(old(self).log_scroll - 1),
                ..*old(self)
            }),
    {
        self.log_scroll = if self.log_scroll > 2 {
            self.log_scroll - 1
        } else {
            1
        };
    }

    /// Scrolls down by half a page.
    pub fn scroll_logs_page_down(&mut self, visible_lines: usize)
        requires
            old(self).log_content@.len() > 0,
            old(self).log_scroll + visible_lines / 2 <= usize::MAX,
        ensures
            *final(self) == (App {
                log_scroll: within(
                    old(self).log_scroll + visible_lines / 2,
                    old(self).log_content@.len(),
                ),
                ..*old(self)
            }),
    {
        let max: usize = self.log_content.len();
        let next: usize = self.log_scroll + visible_lines / 2;
        self.log_scroll = if next < 1 {
            1
        } else if next > max {
            max
        } else {
            next
        };
    }

    /// Scrolls up by half a page.
    pub fn scroll_logs_page_up(&mut self, visible_lines: usize)
        ensures
            *final(self) == (App {
                log_scroll: at_least_one(old(self).log_scroll - visible_lines / 2),
                ..*old(self)
            }),
    {
        let half: usize = visible_lines / 2;
        self.log_scroll = if self.log_scroll > half {
            self.log_scroll - half
        } else {
            1
        };
    }

    pub fn start_log_search(&mut self)
        ensures
            final(self).log_search_query@.len() == 0,
            final(self).log_search_matches@.len() == 0,
            *final(self) == (App {
                log_search_active: true,
                log_search_query: final(self).log_search_query,
                log_search_matches: final(self).log_search_matches,
                log_search_current: 0,
                ..*old(self)
            }),
    {
        self.log_search_active = true;
        self.log_search_query = String::new();
        self.log_search_matches = Vec::new();
        self.log_search_current = 0;
    }

    pub fn end_log_search(&mut self)
        ensures
            *final(self) == (App { log_search_active: false, ..*old(self) }),
    {
        self.log_search_active = false;
    }

    pub fn clear_log_search(&mut self)
        ensures
            final(self).log_search_query@.len() == 0,
            final(self).log_search_matches@.len() == 0,
            *final(self) == (App {
                log_search_active: false,
                log_search_query: final(self).log_search_query,
                log_search_matches: final(self).log_search_matches,
                log_search_current: 0,
                ..*old(self)
            }),
    {
        self.log_search_query = String::new();
        self.log_search_active = false;
        self.log_search_matches = Vec::new();
        self.log_search_current = 0;
    }

    /// Whether a line of the log matches the search, whatever the case.
    pub open spec fn line_matches(self, query: Seq<char>, i: int) -> bool {
        query.len() > 0 && text::occurs(
            text::lowercase(self.log_content@[i]@),
            text::lowercase(query),
        )
    }

    /// Whether the places are those of the matching lines, in order.
    pub open spec fn are_matches(self, query: Seq<char>, places: Seq<usize>) -> bool {
        &&& forall|a: int, b: int|
            0 <= a < b < places.len() ==> (#[trigger] places[a]) < (#[trigger] places[b])
        &&& forall|i: usize| #[trigger]
            places.contains(i) <==> i < self.log_content@.len() && self.line_matches(
                query,
                i as int,
            )
    }

    /// The state after the search has moved to a match: it is some lines below
    /// the top of the page.
    pub open spec fn at_match(self, current: usize) -> App {
        if current < self.log_search_matches@.len() {
            App {
                log_search_current: current,
                log_scroll: at_least_one(self.log_search_matches@[current as int] - 10),
                log_follow: false,
                ..self
            }
        } else {
            App { log_search_current: current, ..self }
        }
    }

    /// The state after another text is searched for.
    pub open spec fn searched(self, before: App, query: Seq<char>) -> bool {
        let found = App {
            log_search_query: self.log_search_query,
            log_search_matches: self.log_search_matches,
            ..before
        };
        &&& self.log_search_query@ == query
        &&& before.are_matches(query, self.log_search_matches@)
        &&& self == (if self.log_search_matches@.len() > 0 {
            found.at_match(0)
        } else {
            found
        })
    }

    pub fn log_search_push(&mut self, c: char)
        ensures
            final(self).searched(*old(self), old(self).log_search_query@.push(c)),
    {
        let ghost start = *self;
        self.log_search_query.push(c);
        self.update_log_search_matches();
        assert(self.searched(start, start.log_search_query@.push(c)));
    }

    pub fn log_search_pop(&mut self)
        ensures
            final(self).searched(*old(self), text::without_last(old(self).log_search_query@)),
    {
        let ghost start = *self;
        let _ = self.log_search_query.pop();
        self.update_log_search_matches();
        assert(self.searched(start, text::without_last(start.log_search_query@)));
    }

    fn update_log_search_matches(&mut self)
        ensures
            final(self).searched(*old(self), old(self).log_search_query@),
            final(self).log_search_query == old(self).log_search_query,
    {
        let ghost start = *self;
        let ghost query = self.log_search_query@;
        self.log_search_matches = Vec::new();
        if !self.log_search_query.as_str().is_empty() {
            let needle = to_lowercase(self.log_search_query.as_str());
            let mut lowered: Vec<String> = Vec::new();
            let mut i: usize = 0;
            while i < self.log_content.len()
                invariant
                    i <= self.log_content@.len(),
                    lowered@.len() == i,
                    forall|k: int|
                        0 <= k < i ==> (#[trigger] lowered@[k])@ == text::lowercase(
                            self.log_content@[k]@,
                        ),
                decreases self.log_content@.len() - i,
            {
                lowered.push(to_lowercase(self.log_content[i].as_str()));
                i += 1;
            }
            self.log_search_matches = matching_lines(&lowered, needle.as_str());
            proof {
                assert forall|p: usize| #[trigger] self.log_search_matches@.contains(p) <==> p
                    < start.log_content@.len() && start.line_matches(query, p as int) by {
                    if p < lowered@.len() {
                        assert(lowered@[p as int]@ == text::lowercase(start.log_content@[p as int]@));
                    }
                }
            }
            if self.log_search_matches.len() > 0 {
                self.log_search_current = 0;
                self.jump_to_log_match();
            }
        }
    }

    /// Goes on to the next match.
    pub fn log_search_next(&mut self)
        requires
            old(self).log_search_matches@.len() > 0 ==> old(self).log_search_current < usize::MAX,
        ensures
            *final(self) == (if old(self).log_search_matches@.len() > 0 {
                old(self).at_match(
                    next_place(old(self).log_search_current, old(self).log_search_matches@.len()),
                )
            } else {
                *old(self)
            }),
    {
        if self.log_search_matches.len() > 0 {
            self.log_search_current = (self.log_search_current + 1) % self.log_search_matches.len();
            self.jump_to_log_match();
        }
    }

    /// Goes back to the previous match.
    pub fn log_search_prev(&mut self)
        ensures
            *final(self) == (if old(self).log_search_matches@.len() > 0 {
                old(self).at_match(
                    prev_place(old(self).log_search_current, old(self).log_search_matches@.len()),
                )
            } else {
                *old(self)
            }),
    {
        if self.log_search_matches.len() > 0 {
            self.log_search_current = if self.log_search_current == 0 {
                self.log_search_matches.len() - 1
            } else {
                self.log_search_current - 1
            };
            self.jump_to_log_match();
        }
    }

    fn jump_to_log_match(&mut self)
        ensures
            *final(self) == old(self).at_match(old(self).log_search_current),
    {
        if self.log_search_current < self.log_search_matches.len() {
            let line: usize = self.log_search_matches[self.log_search_current];
            self.log_scroll = if line > 11 {
                line - 10
            } else {
                1
            };
            self.log_follow = false;
        }
    }

    /// Whether the state is that after a log was read.
    pub open spec fn log_read(self, before: App, log: Option<Seq<char>>) -> bool {
        &&& text::views(self.log_content@) == shown_log(log)
        &&& self == (App {
            log_content: self.log_content,
            log_scroll: if before.log_follow || before.log_content@.len() == 0 {
                at_least_one(self.log_content@.len() as int)
            } else {
                before.log_scroll
            },
            ..before
        })
    }

    /// Shows a log, at its end where the end is followed or nothing was shown
    /// before.
    fn load_logs(&mut self, log: &Option<String>)
        ensures
            final(self).log_read(*old(self), text::opt_view(*log)),
    {
        let first = self.log_content.len() == 0;
        self.log_content =
        match log {
            Some(content) => lines_of(content.as_str()),
            None => {
                let note = vec!["No logs available".to_owned()];
                assert(text::views(note@) =~= seq!["No logs available"@]);
                note
            },
        };
        if self.log_follow || first {
            self.log_scroll = if self.log_content.len() > 1 {
                self.log_content.len()
            } else {
                1
            };
        }
    }

    // -----------------------------------------------------------------------
    // Details and help
    // -----------------------------------------------------------------------

    pub fn show_details(&mut self, daemon_id: &DaemonId)
        ensures
            *final(self) == (App {
                details_daemon_id: Some(*daemon_id),
                prev_view: old(self).view,
                view: View::Details,
                ..*old(self)
            }),
    {
        self.details_daemon_id = Some(daemon_id.clone());
        self.prev_view = self.view;
        self.view = View::Details;
    }

    pub fn hide_details(&mut self)
        ensures
            *final(self) == (App {
                details_daemon_id: None,
                view: View::Dashboard,
                ..*old(self)
            }),
    {
        self.details_daemon_id = None;
        self.view = View::Dashboard;
    }

    /// Shows the charts and the log of a daemon.
    pub fn view_daemon_details(&mut self, daemon_id: &DaemonId, log: &Option<String>)
        ensures
            final(self).log_read(
                (App {
                    log_daemon_id: Some(*daemon_id),
                    logs_expanded: false,
                    view: View::Logs,
                    ..*old(self)
                }),
                text::opt_view(*log),
            ),
    {
        self.log_daemon_id = Some(daemon_id.clone());
        self.logs_expanded = false;
        self.load_logs(log);
        self.view = View::Logs;
    }

    pub fn show_help(&mut self)
        ensures
            *final(self) == (App { view: View::Help, ..*old(self) }),
    {
        self.view = View::Help;
    }

    pub fn back_to_dashboard(&mut self)
        ensures
            final(self).log_content@.len() == 0,
            *final(self) == (App {
                view: View::Dashboard,
                log_daemon_id: None,
                log_content: final(self).log_content,
                log_scroll: 1,
                ..*old(self)
            }),
    {
        self.view = View::Dashboard;
        self.log_daemon_id = None;
        self.log_content = Vec::new();
        self.log_scroll = 1;
    }
}

/// An action that is asked for and then answered, one way or the other, leaves
/// the user where they were, with no action waiting.
pub proof fn law_answer_restores_the_view(app: App, action: PendingAction)
    ensures
        app.asking(action).pending_action == Some(action),
        app.asking(action).answered() == (App {
            pending_action: None,
            prev_view: app.view,
            ..app
        }),
{
}

/// Five steps lead through all columns and back; two turns of the order undo
/// each other.
pub proof fn law_sorting_cycles(column: SortColumn, order: SortOrder)
    ensures
        column.following().following().following().following().following() == column,
        column.following() != column,
        column.following().following() != column,
        column.following().following().following() != column,
        column.following().following().following().following() != column,
        order.reversed().reversed() == order,
        order.reversed() != order,
{
}

/// Scrolling stays within the log, and scrolling up undoes scrolling down
/// except at the end.
pub proof fn law_scrolling_stays_in_the_log(scroll: usize, lines: nat, half: usize)
    requires
        1 <= scroll <= lines <= usize::MAX,
    ensures
        1 <= within(scroll + 1, lines) <= lines,
        1 <= within(scroll + half, lines) <= lines,
        1 <= at_least_one(scroll - 1) <= lines,
        1 <= at_least_one(scroll - half) <= lines,
        scroll + half <= lines ==> at_least_one(within(scroll + half, lines) - half) == scroll,
{
}

// ---------------------------------------------------------------------------
// Refreshing
// ---------------------------------------------------------------------------

/// The daemons of the entries that are listed: those known to the supervisor,
/// and the others where they are shown.
pub open spec fn listed_daemons(entries: Seq<DaemonListEntry>, show_available: bool) -> Seq<Daemon>
    decreases entries.len(),
{
    if entries.len() == 0 {
        Seq::empty()
    } else {
        let rest = listed_daemons(entries.drop_last(), show_available);
        if !entries.last().is_available || show_available {
            rest.push(entries.last().daemon)
        } else {
            rest
        }
    }
}

/// The disabled daemons of the entries, in order.
pub open spec fn disabled_daemons(entries: Seq<DaemonListEntry>) -> Seq<IdView>
    decreases entries.len(),
{
    if entries.len() == 0 {
        Seq::empty()
    } else {
        let rest = disabled_daemons(entries.drop_last());
        if entries.last().is_disabled {
            rest.push(entries.last().daemon.id@)
        } else {
            rest
        }
    }
}

/// The daemons of the entries that are only configured.
pub open spec fn available_daemons(entries: Seq<DaemonListEntry>) -> Set<IdView>
    decreases entries.len(),
{
    if entries.len() == 0 {
        Set::empty()
    } else {
        let rest = available_daemons(entries.drop_last());
        if entries.last().is_available {
            rest.insert(entries.last().daemon.id@)
        } else {
            rest
        }
    }
}

/// What the process of a daemon was measured to use.
pub open spec fn measure_of(d: Daemon, measured: Map<u32, ProcessStats>) -> Option<ProcessStats> {
    match d.pid {
        Some(pid) => if measured.contains_key(pid) {
            Some(measured[pid])
        } else {
            None
        },
        None => None,
    }
}

/// The figures of the daemons' processes, by process id.
pub open spec fn figures(
    daemons: Seq<Daemon>,
    measured: Map<u32, ProcessStats>,
) -> Map<u32, ProcessStats>
    decreases daemons.len(),
{
    if daemons.len() == 0 {
        Map::empty()
    } else {
        let rest = figures(daemons.drop_last(), measured);
        match measure_of(daemons.last(), measured) {
            Some(s) => rest.insert(daemons.last().pid->0, s),
            None => rest,
        }
    }
}

/// The histories after the daemons' figures were recorded.
pub open spec fn histories(
    start: Map<IdView, Seq<StatsSnapshot>>,
    daemons: Seq<Daemon>,
    measured: Map<u32, ProcessStats>,
    stat_history: i64,
) -> Map<IdView, Seq<StatsSnapshot>>
    decreases daemons.len(),
{
    if daemons.len() == 0 {
        start
    } else {
        let rest = histories(start, daemons.drop_last(), measured, stat_history);
        match measure_of(daemons.last(), measured) {
            Some(s) => stats::recorded(
                rest,
                daemons.last().id@,
                stats::snapshot_of(s),
                stat_history,
            ),
            None => rest,
        }
    }
}

/// What a refresh finds besides the daemons.
#[derive(Debug)]
pub struct Surroundings {
    /// What processes use, by process id.
    pub measured: HashMap<u32, ProcessStats>,
    /// The setting for how many snapshots a history keeps.
    pub stat_history: i64,
    /// The time, in nanoseconds of a clock that never goes back.
    pub now: u128,
    /// The setting for how long a message stays, in nanoseconds.
    pub message_duration: u128,
    /// The log of the daemon whose log is shown, where there is a file.
    pub log: Option<String>,
}

impl App {
    fn refresh_process_stats(&mut self, at: &Surroundings)
        ensures
            final(self).process_stats@ == figures(old(self).daemons@, at.measured@),
            final(self).stats_history@ == histories(
                old(self).stats_history@,
                old(self).daemons@,
                at.measured@,
                at.stat_history,
            ),
            *final(self) == (App {
                process_stats: final(self).process_stats,
                stats_history: final(self).stats_history,
                ..*old(self)
            }),
    {
        broadcast use vstd::std_specs::hash::group_hash_axioms;

        let ghost start = *self;
        let ghost daemons = self.daemons@;
        self.process_stats = HashMap::new();
        let mut i: usize = 0;
        assert(daemons.take(0).len() == 0);
        while i < self.daemons.len()
            invariant
                i <= self.daemons@.len(),
                daemons == self.daemons@,
                *self == (App {
                    process_stats: self.process_stats,
                    stats_history: self.stats_history,
                    ..start
                }),
                self.process_stats@ == figures(daemons.take(i as int), at.measured@),
                self.stats_history@ == histories(
                    start.stats_history@,
                    daemons.take(i as int),
                    at.measured@,
                    at.stat_history,
                ),
            decreases self.daemons@.len() - i,
        {
            broadcast use vstd::std_specs::hash::group_hash_axioms;

            assert(daemons.take(i + 1).drop_last() =~= daemons.take(i as int));
            if let Some(pid) = self.daemons[i].pid {
                if let Some(found) = at.measured.get(&pid) {
                    let figures: ProcessStats = *found;
                    self.process_stats.insert(pid, figures);
                    let id = self.daemons[i].id.clone();
                    self.stats_history.record(&id, StatsSnapshot::from(&figures), at.stat_history);
                }
            }
            i += 1;
        }
        assert(daemons.take(i as int) =~= daemons);
    }

    /// Takes over the daemons of the entries.
    fn take_entries(&mut self, all_entries: Vec<DaemonListEntry>)
        ensures
            final(self).daemons@ == listed_daemons(all_entries@, old(self).show_available),
            daemon::id_views(final(self).disabled@) == disabled_daemons(all_entries@),
            final(self).config_daemon_ids@ == available_daemons(all_entries@),
            *final(self) == (App {
                daemons: final(self).daemons,
                disabled: final(self).disabled,
                config_daemon_ids: final(self).config_daemon_ids,
                ..*old(self)
            }),
    {
        let ghost start = *self;
        let ghost entries = all_entries@;
        self.daemons = Vec::new();
        self.disabled = Vec::new();
        self.config_daemon_ids = IdSet::new();
        proof {
            assert(entries.take(0).len() == 0);
            assert(self.daemons@ =~= listed_daemons(entries.take(0), self.show_available));
            assert(daemon::id_views(self.disabled@) =~= disabled_daemons(entries.take(0)));
        }
        for entry in it: all_entries
            invariant
                it.seq() == entries,
                *self == (App {
                    daemons: self.daemons,
                    disabled: self.disabled,
                    config_daemon_ids: self.config_daemon_ids,
                    ..start
                }),
                self.daemons@ == listed_daemons(
                    entries.take(it.index() as int),
                    start.show_available,
                ),
                daemon::id_views(self.disabled@) == disabled_daemons(
                    entries.take(it.index() as int),
                ),
                self.config_daemon_ids@ == available_daemons(entries.take(it.index() as int)),
        {
            proof {
                let i = it.index() as int;
                assert(entries.take(i + 1).drop_last() =~= entries.take(i));
                assert(entries.take(i + 1).last() == entry);
            }
            let daemon_id = entry.daemon.id.clone();
            if entry.is_disabled {
                proof {
                    assert(daemon::id_views(self.disabled@.push(daemon_id)) =~= daemon::id_views(
                        self.disabled@,
                    ).push(daemon_id@));
                }
                self.disabled.push(daemon_id.clone());
            }
            if entry.is_available {
                self.config_daemon_ids.insert(daemon_id);
            }
            if !entry.is_available || self.show_available {
                self.daemons.push(entry.daemon);
            }
        }
        assert(entries.take(entries.len() as int) =~= entries);
    }

    /// Whether the state is that after a fresh list of daemons was taken over.
    /// The selection stays within the list, a message that was there long
    /// enough goes, and a log that is shown is read again.
    pub open spec fn refreshed(
        self,
        before: App,
        entries: Seq<DaemonListEntry>,
        at: Surroundings,
    ) -> bool {
        let stale = before.message_is_stale(at.now, at.message_duration);
        let kept = App {
            daemons: self.daemons,
            disabled: self.disabled,
            config_daemon_ids: self.config_daemon_ids,
            process_stats: self.process_stats,
            stats_history: self.stats_history,
            selected: self.selected,
            message: if stale {
                None
            } else {
                before.message
            },
            message_time: if stale {
                None
            } else {
                before.message_time
            },
            ..before
        };
        &&& self.daemons@ == listed_daemons(entries, before.show_available)
        &&& daemon::id_views(self.disabled@) == disabled_daemons(entries)
        &&& self.config_daemon_ids@ == available_daemons(entries)
        &&& self.process_stats@ == figures(self.daemons@, at.measured@)
        &&& self.stats_history@ == histories(
            before.stats_history@,
            self.daemons@,
            at.measured@,
            at.stat_history,
        )
        &&& self.selected == (if 0 < self.visible_count() <= before.selected {
            (self.visible_count() - 1) as usize
        } else {
            before.selected
        })
        &&& if before.view == View::Logs && before.log_daemon_id is Some {
            self.log_read(kept, text::opt_view(at.log))
        } else {
            self == kept
        }
    }

    /// Takes over a fresh list of daemons.
    pub fn apply_refresh(&mut self, all_entries: Vec<DaemonListEntry>, at: &Surroundings)
        ensures
            final(self).refreshed(*old(self), all_entries@, *at),
    {
        self.take_entries(all_entries);
        self.refresh_process_stats(at);
        self.clear_stale_message(at.now, at.message_duration);
        let total: usize = self.total_daemon_count();
        let ghost counted = *self;
        if total > 0 && self.selected >= total {
            self.selected = total - 1;
        }
        if self.view == View::Logs && self.log_daemon_id.is_some() {
            self.load_logs(&at.log);
        }
        proof {
            counted.lemma_same_list(*self, self.daemons@.len() as int);
        }
    }

    /// Takes over a fresh list of daemons that was asked for; where it could not
    /// be had, nothing changes and the error is handed on.
    pub fn refresh(
        &mut self,
        fetched: Result<Vec<DaemonListEntry>, String>,
        at: &Surroundings,
    ) -> (r: Result<(), String>)
        ensures
            match fetched {
                Ok(entries) => r is Ok && final(self).refreshed(*old(self), entries@, *at),
                Err(e) => r == Err::<(), String>(e) && *final(self) == *old(self),
            },
    {
        match fetched {
            Ok(entries) => {
                self.apply_refresh(entries, at);
                Ok(())
            },
            Err(e) => Err(e),
        }
    }

    /// What is shown depends on the daemons and the search alone.
    proof fn lemma_same_list(self, other: App, n: int)
        requires
            self.daemons == other.daemons,
            self.search_query == other.search_query,
        ensures
            self.visible_among(n) == other.visible_among(n),
        decreases n,
    {
        if n > 0 {
            self.lemma_same_list(other, n - 1);
        }
    }
}

/// The process ids of the daemons that have one.
pub open spec fn pids_of(daemons: Seq<Daemon>) -> Seq<u32>
    decreases daemons.len(),
{
    if daemons.len() == 0 {
        Seq::empty()
    } else {
        match daemons.last().pid {
            Some(pid) => pids_of(daemons.drop_last()).push(pid),
            None => pids_of(daemons.drop_last()),
        }
    }
}

/// The processes to be measured before a refresh takes over the entries.
pub fn pids_to_measure(entries: &Vec<DaemonListEntry>, show_available: bool) -> (r: Vec<u32>)
    ensures
        r@ == pids_of(listed_daemons(entries@, show_available)),
{
    let ghost all = entries@;
    let mut out: Vec<u32> = Vec::new();
    let mut i: usize = 0;
    assert(out@ =~= pids_of(listed_daemons(all.take(0), show_available)));
    while i < entries.len()
        invariant
            i <= entries@.len(),
            all == entries@,
            out@ == pids_of(listed_daemons(all.take(i as int), show_available)),
        decreases entries@.len() - i,
    {
        let entry = &entries[i];
        proof {
            assert(all.take(i + 1).drop_last() =~= all.take(i as int));
            let before = listed_daemons(all.take(i as int), show_available);
            assert(before.push(entry.daemon).drop_last() =~= before);
        }
        if !entry.is_available || show_available {
            if let Some(pid) = entry.daemon.pid {
                out.push(pid);
            }
        }
        i += 1;
    }
    assert(all.take(i as int) =~= all);
    out
}

// ---------------------------------------------------------------------------
// Counts
// ---------------------------------------------------------------------------

impl App {
    /// Whether a daemon counts as stopped: one that is only configured does not.
    pub open spec fn counts_as_stopped(self, d: Daemon) -> bool {
        d.status is Stopped && !self.config_daemon_ids@.contains(d.id@)
    }

    /// How many daemons there are in all, running, stopped, with an error, and
    /// only configured.
    pub fn stats(&self) -> (r: (usize, usize, usize, usize, usize))
        ensures
            r.0 == self.daemons@.len(),
            r.1 == lists::count(self.daemons@, |d: Daemon| d.status is Running),
            r.2 == lists::count(self.daemons@, |d: Daemon| self.counts_as_stopped(d)),
            r.3 == lists::count(
                self.daemons@,
                |d: Daemon| d.status is Errored || d.status is Failed,
            ),
            r.4 == self.config_daemon_ids@.len(),
    {
        let ghost all = self.daemons@;
        let ghost is_running = |d: Daemon| d.status is Running;
        let ghost is_stopped = |d: Daemon| self.counts_as_stopped(d);
        let ghost is_errored = |d: Daemon| d.status is Errored || d.status is Failed;
        let mut running: usize = 0;
        let mut stopped: usize = 0;
        let mut errored: usize = 0;
        let mut i: usize = 0;
        while i < self.daemons.len()
            invariant
                i <= self.daemons@.len(),
                all == self.daemons@,
                is_running == (|d: Daemon| d.status is Running),
                is_stopped == (|d: Daemon| self.counts_as_stopped(d)),
                is_errored == (|d: Daemon| d.status is Errored || d.status is Failed),
                running == lists::count(all.take(i as int), is_running) <= i,
                stopped == lists::count(all.take(i as int), is_stopped) <= i,
                errored == lists::count(all.take(i as int), is_errored) <= i,
            decreases self.daemons@.len() - i,
        {
            let d = &self.daemons[i];
            proof {
                lists::lemma_count_step(all, is_running, i as int);
                lists::lemma_count_step(all, is_stopped, i as int);
                lists::lemma_count_step(all, is_errored, i as int);
            }
            if d.status.is_running() {
                running += 1;
            }
            if d.status.is_stopped() && !self.config_daemon_ids.contains(&d.id) {
                stopped += 1;
            }
            if d.status.is_errored() || d.status.is_failed() {
                errored += 1;
            }
            i += 1;
        }
        assert(all.take(i as int) =~= all);
        (self.daemons.len(), running, stopped, errored, self.config_daemon_ids.len())
    }
}

/// Unless the list is ordered by processor shares of which one is not a
/// number, there is only one order in which it can be shown.
pub proof fn law_shown_order_is_settled(app: App, a: Seq<usize>, b: Seq<usize>)
    requires
        app.scores().len() == app.daemons@.len(),
        app.sort_column == SortColumn::Cpu ==> forall|i: int|
            0 <= i < app.daemons@.len() ==> app.sort_key(#[trigger] app.daemons@[i]) is Number,
        app.is_shown_order(a),
        app.is_shown_order(b),
    ensures
        order::orderly(app.sort_keys(), app.scores()),
        a == b,
{
    let keys = app.sort_keys();
    let scores = app.scores();
    assert forall|i: int| #[trigger] order::is_listed(scores, i) implies if app.sort_column
        == SortColumn::Name {
        keys[i] is Text
    } else {
        keys[i] is Number
    } by {
        assert(keys[i] == app.sort_key(app.daemons@[i]));
    }
    order::law_listing_is_unique(a, b, keys, scores, app.sort_order == SortOrder::Descending);
}

/// Without a search every daemon is shown.
pub proof fn law_without_a_search_all_are_shown(app: App, n: int)
    requires
        app.search_query@.len() == 0,
        0 <= n <= app.daemons@.len(),
    ensures
        app.visible_among(n) == n,
        n == app.daemons@.len() ==> app.visible_count() == app.daemons@.len(),
    decreases n,
{
    if n > 0 {
        law_without_a_search_all_are_shown(app, n - 1);
    }
}

/// Typing one more character of a search never shows a daemon that was not
/// shown before.
pub proof fn law_typing_never_shows_more(before: App, after: App, c: char, n: int)
    requires
        before.daemons == after.daemons,
        after.search_query@ == before.search_query@.push(c),
    ensures
        forall|i: int| #[trigger] after.is_visible(i) ==> before.is_visible(i),
        after.visible_among(n) <= before.visible_among(n),
    decreases n,
{
    assert forall|i: int| #[trigger] after.is_visible(i) implies before.is_visible(i) by {
        fuzzy::law_typing_narrows_the_search(
            before.daemons@[i].id@.qualified(),
            before.search_query@,
            c,
        );
    }
    if n > 0 {
        law_typing_never_shows_more(before, after, c, n - 1);
        assert(after.is_visible(n - 1) ==> before.is_visible(n - 1));
    }
}

/// After a refresh that lists any daemon, a daemon is selected.
pub proof fn law_refresh_keeps_a_selection(
    after: App,
    before: App,
    entries: Seq<DaemonListEntry>,
    at: Surroundings,
)
    requires
        after.refreshed(before, entries, at),
        after.visible_count() > 0,
        after.visible_count() <= usize::MAX,
    ensures
        after.selected < after.visible_count(),
{
}

/// Every daemon that the supervisor knows is listed, and with the others shown
/// too, all are.
pub proof fn law_known_daemons_are_listed(
    entries: Seq<DaemonListEntry>,
    i: int,
    show_available: bool,
)
    requires
        0 <= i < entries.len(),
        !entries[i].is_available || show_available,
    ensures
        listed_daemons(entries, show_available).contains(entries[i].daemon),
        show_available ==> listed_daemons(entries, show_available).len() == entries.len(),
    decreases entries.len(),
{
    let rest = listed_daemons(entries.drop_last(), show_available);
    if i < entries.len() - 1 {
        law_known_daemons_are_listed(entries.drop_last(), i, show_available);
        let all = listed_daemons(entries, show_available);
        let k = choose|k: int| 0 <= k < rest.len() && rest[k] == entries[i].daemon;
        assert(all[k] == rest[k]);
    } else {
        let all = listed_daemons(entries, show_available);
        assert(all[all.len() - 1] == entries[i].daemon);
        if show_available && entries.len() > 1 {
            law_known_daemons_are_listed(entries.drop_last(), 0, show_available);
        }
    }
}

/// With the daemons that are only configured hidden, none of them is listed.
pub proof fn law_hidden_daemons_are_not_listed(entries: Seq<DaemonListEntry>, k: int)
    requires
        0 <= k < listed_daemons(entries, false).len(),
    ensures
        exists|i: int|
            0 <= i < entries.len() && !(#[trigger] entries[i]).is_available && entries[i].daemon
                == listed_daemons(entries, false)[k],
    decreases entries.len(),
{
    let rest = listed_daemons(entries.drop_last(), false);
    if k < rest.len() {
        law_hidden_daemons_are_not_listed(entries.drop_last(), k);
        let i = choose|i: int|
            0 <= i < entries.drop_last().len() && !(
            #[trigger] entries.drop_last()[i]).is_available && entries.drop_last()[i].daemon
                == rest[k];
        assert(!entries[i].is_available);
    } else {
        assert(!entries[entries.len() - 1].is_available);
    }
}

// ---------------------------------------------------------------------------
// Laws: the list
// ---------------------------------------------------------------------------

/// What a fresh list comes to: the daemons that the supervisor knows, and the
/// others where they are shown, in the order of the entries; those of them that
/// are disabled, in that order; and those that are only configured.
pub proof fn law_entries_are_taken_over(
    entries: Seq<DaemonListEntry>,
    show_available: bool,
    id: IdView,
)
    ensures
        listed_daemons(entries, show_available) == entries.filter(
            |e: DaemonListEntry| !e.is_available || show_available,
        ).map_values(|e: DaemonListEntry| e.daemon),
        disabled_daemons(entries) == entries.filter(
            |e: DaemonListEntry| e.is_disabled,
        ).map_values(|e: DaemonListEntry| e.daemon.id@),
        available_daemons(entries).contains(id) <==> exists|i: int|
            0 <= i < entries.len() && (#[trigger] entries[i]).is_available && entries[i].daemon.id@
                == id,
    decreases entries.len(),
{
    reveal(Seq::filter);
    let listed = |e: DaemonListEntry| !e.is_available || show_available;
    let off = |e: DaemonListEntry| e.is_disabled;
    let whole = |e: DaemonListEntry| e.daemon;
    let name = |e: DaemonListEntry| e.daemon.id@;
    if entries.len() > 0 {
        let rest = entries.drop_last();
        let last = entries.last();
        law_entries_are_taken_over(rest, show_available, id);
        assert(rest.filter(listed).push(last).map_values(whole) =~= rest.filter(listed).map_values(
            whole,
        ).push(last.daemon));
        assert(rest.filter(off).push(last).map_values(name) =~= rest.filter(off).map_values(
            name,
        ).push(last.daemon.id@));
        assert(entries[entries.len() - 1] == last);
        if available_daemons(rest).contains(id) {
            let i = choose|i: int|
                0 <= i < rest.len() && (#[trigger] rest[i]).is_available && rest[i].daemon.id@ == id;
            assert(entries[i] == rest[i]);
        }
        if exists|i: int|
            0 <= i < entries.len() && (#[trigger] entries[i]).is_available && entries[i].daemon.id@
                == id {
            let i = choose|i: int|
                0 <= i < entries.len() && (#[trigger] entries[i]).is_available
                    && entries[i].daemon.id@ == id;
            if i < rest.len() {
                assert(rest[i] == entries[i]);
            }
        }
    } else {
        assert(entries.filter(listed).map_values(whole) =~= Seq::empty());
        assert(entries.filter(off).map_values(name) =~= Seq::empty());
    }
}

/// The processes to be measured are those of the daemons that have one, in the
/// order of the daemons.
pub proof fn law_every_process_is_measured(daemons: Seq<Daemon>)
    ensures
        pids_of(daemons) == daemons.filter(|d: Daemon| d.pid is Some).map_values(
            |d: Daemon| d.pid->0,
        ),
    decreases daemons.len(),
{
    reveal(Seq::filter);
    let has = |d: Daemon| d.pid is Some;
    let pid = |d: Daemon| d.pid->0;
    if daemons.len() > 0 {
        let rest = daemons.drop_last();
        law_every_process_is_measured(rest);
        assert(rest.filter(has).push(daemons.last()).map_values(pid) =~= rest.filter(
            has,
        ).map_values(pid).push(daemons.last().pid->0));
    } else {
        assert(daemons.filter(has).map_values(pid) =~= Seq::empty());
    }
}

/// Whether the daemon in a place has this process, and the process was measured.
pub open spec fn measured_at(
    daemons: Seq<Daemon>,
    measured: Map<u32, ProcessStats>,
    pid: u32,
    i: int,
) -> bool {
    0 <= i < daemons.len() && daemons[i].pid == Some(pid) && measured.contains_key(pid)
}

/// The figures of a process are those that were measured, and are known exactly
/// if it was measured and is that of a daemon.
pub proof fn law_figures_are_as_measured(
    daemons: Seq<Daemon>,
    measured: Map<u32, ProcessStats>,
    pid: u32,
)
    ensures
        figures(daemons, measured).contains_key(pid) <==> exists|i: int| #[trigger]
            measured_at(daemons, measured, pid, i),
        figures(daemons, measured).contains_key(pid) ==> figures(daemons, measured)[pid]
            == measured[pid],
    decreases daemons.len(),
{
    if daemons.len() > 0 {
        let rest = daemons.drop_last();
        let n = rest.len() as int;
        law_figures_are_as_measured(rest, measured, pid);
        assert(daemons[n] == daemons.last());
        if exists|i: int| #[trigger] measured_at(rest, measured, pid, i) {
            let i = choose|i: int| #[trigger] measured_at(rest, measured, pid, i);
            assert(measured_at(daemons, measured, pid, i));
        }
        if exists|i: int| #[trigger] measured_at(daemons, measured, pid, i) {
            let i = choose|i: int| #[trigger] measured_at(daemons, measured, pid, i);
            if i < n {
                assert(measured_at(rest, measured, pid, i));
            }
        }
        if daemons[n].pid == Some(pid) && measured.contains_key(pid) {
            assert(measured_at(daemons, measured, pid, n));
        }
    }
}

/// Whether the daemon in a place has this identifier and was measured.
pub open spec fn recorded_at(
    daemons: Seq<Daemon>,
    measured: Map<u32, ProcessStats>,
    id: IdView,
    i: int,
) -> bool {
    &&& 0 <= i < daemons.len()
    &&& daemons[i].id@ == id
    &&& daemons[i].pid is Some
    &&& measured.contains_key(daemons[i].pid->0)
}

/// A daemon that was measured gets a snapshot of its figures at the end of its
/// history; the history of one that was not stays as it was. Where a daemon is
/// listed once, the snapshot is all that is new in its history.
pub proof fn law_measures_are_recorded(
    start: Map<IdView, Seq<StatsSnapshot>>,
    daemons: Seq<Daemon>,
    measured: Map<u32, ProcessStats>,
    setting: i64,
    id: IdView,
)
    requires
        setting <= usize::MAX,
    ensures
        (forall|i: int| !#[trigger] recorded_at(daemons, measured, id, i)) ==> (histories(
            start,
            daemons,
            measured,
            setting,
        ).dom().contains(id) <==> start.dom().contains(id)) && (start.dom().contains(id)
            ==> histories(start, daemons, measured, setting)[id] == start[id]),
        forall|i: int| #[trigger]
            recorded_at(daemons, measured, id, i) && (forall|m: int|
                i < m < daemons.len() ==> !#[trigger] recorded_at(daemons, measured, id, m)) ==> {
                let history = histories(start, daemons, measured, setting)[id];
                &&& histories(start, daemons, measured, setting).dom().contains(id)
                &&& history.len() > 0
                &&& history.last().cpu_bits == measured[daemons[i].pid->0].cpu_bits
                &&& history.last().memory_bytes == measured[daemons[i].pid->0].memory_bytes
                &&& history.last().disk_read_bytes == measured[daemons[i].pid->0].disk_read_bytes
                &&& history.last().disk_write_bytes == measured[daemons[i].pid->0].disk_write_bytes
                &&& (forall|m: int|
                    0 <= m < i ==> !#[trigger] recorded_at(daemons, measured, id, m))
                    && start.dom().contains(id) && start[id].len() < setting ==> history
                    == start[id].push(history.last())
            },
    decreases daemons.len(),
{
    if daemons.len() > 0 {
        let rest = daemons.drop_last();
        let n = rest.len() as int;
        let before = histories(start, rest, measured, setting);
        let after = histories(start, daemons, measured, setting);
        law_measures_are_recorded(start, rest, measured, setting, id);
        assert(daemons[n] == daemons.last());
        assert forall|i: int| 0 <= i < n implies #[trigger] recorded_at(rest, measured, id, i)
            == recorded_at(daemons, measured, id, i) by {
            assert(rest[i] == daemons[i]);
        }
        if forall|i: int| !#[trigger] recorded_at(daemons, measured, id, i) {
            assert(!recorded_at(daemons, measured, id, n));
            assert forall|i: int| !#[trigger] recorded_at(rest, measured, id, i) by {
                assert(!recorded_at(daemons, measured, id, i));
            }
        }
        let last = daemons.last();
        if let Some(s) = measure_of(last, measured) {
            stats::law_histories_are_kept_apart(
                before,
                last.id@,
                stats::snapshot_of(s),
                setting,
                id,
            );
        }
        assert forall|i: int| #[trigger]
            recorded_at(daemons, measured, id, i) && (forall|m: int|
                i < m < daemons.len() ==> !#[trigger] recorded_at(
                    daemons,
                    measured,
                    id,
                    m,
                )) implies {
            let history = after[id];
            &&& after.dom().contains(id)
            &&& history.len() > 0
            &&& history.last().cpu_bits == measured[daemons[i].pid->0].cpu_bits
            &&& history.last().memory_bytes == measured[daemons[i].pid->0].memory_bytes
            &&& history.last().disk_read_bytes == measured[daemons[i].pid->0].disk_read_bytes
            &&& history.last().disk_write_bytes == measured[daemons[i].pid->0].disk_write_bytes
            &&& (forall|m: int| 0 <= m < i ==> !#[trigger] recorded_at(daemons, measured, id, m))
                && start.dom().contains(id) && start[id].len() < setting ==> history
                == start[id].push(history.last())
        } by {
            if i < n {
                assert(!recorded_at(daemons, measured, id, n));
                assert(recorded_at(rest, measured, id, i));
                assert forall|m: int| i < m < rest.len() implies !#[trigger] recorded_at(
                    rest,
                    measured,
                    id,
                    m,
                ) by {
                    assert(!recorded_at(daemons, measured, id, m));
                }
                if forall|m: int| 0 <= m < i ==> !#[trigger] recorded_at(
                    daemons,
                    measured,
                    id,
                    m,
                ) {
                    assert forall|m: int| 0 <= m < i implies !#[trigger] recorded_at(
                        rest,
                        measured,
                        id,
                        m,
                    ) by {
                        assert(!recorded_at(daemons, measured, id, m));
                    }
                }
            } else {
                if forall|m: int| 0 <= m < i ==> !#[trigger] recorded_at(
                    daemons,
                    measured,
                    id,
                    m,
                ) {
                    assert forall|m: int| !#[trigger] recorded_at(rest, measured, id, m) by {
                        if 0 <= m < n {
                            assert(!recorded_at(daemons, measured, id, m));
                        }
                    }
                }
            }
        }
    }
}

/// What each column orders by: the name in small letters; the state, running
/// ones first, then those that wait, stop, are stopped, ended and failed; and
/// the share of the processor, the memory and the running time, which count as
/// zero where they are not known.
pub proof fn law_columns_order_by_what_they_show(app: App, d: Daemon)
    ensures
        ({
            let key = app.sort_key(d);
            let known = d.pid is Some && app.process_stats@.contains_key(d.pid->0);
            let s = app.process_stats@[d.pid->0];
            &&& app.sort_column == SortColumn::Name ==> key == KeyView::Text(
                text::lowercase(d.id@.namespace + "/"@ + d.id@.name),
            )
            &&& app.sort_column == SortColumn::Status ==> {
                &&& d.status is Running ==> key == KeyView::Number(0)
                &&& d.status is Waiting ==> key == KeyView::Number(1)
                &&& d.status is Stopping ==> key == KeyView::Number(2)
                &&& d.status is Stopped ==> key == KeyView::Number(3)
                &&& d.status is Errored ==> key == KeyView::Number(4)
                &&& d.status is Failed ==> key == KeyView::Number(5)
            }
            &&& app.sort_column == SortColumn::Memory && known ==> key == KeyView::Number(
                s.memory_bytes as int,
            )
            &&& app.sort_column == SortColumn::Uptime && known ==> key == KeyView::Number(
                s.uptime_secs as int,
            )
            &&& app.sort_column == SortColumn::Cpu && known && daemon::cpu_rank(s.cpu_bits) is Some
                ==> key == KeyView::Number(daemon::cpu_rank(s.cpu_bits)->0)
            &&& app.sort_column == SortColumn::Cpu && known && daemon::cpu_rank(s.cpu_bits) is None
                ==> key is Unordered
            &&& (app.sort_column == SortColumn::Memory || app.sort_column == SortColumn::Uptime
                || app.sort_column == SortColumn::Cpu) && !known ==> key == KeyView::Number(0)
        }),
{
}

/// The list as it is shown stands in the order of its column, upwards or
/// downwards as asked for: of two daemons the one that is shown first has no
/// larger, or no smaller, memory use, running time or state than the other.
pub proof fn law_the_list_is_sorted(app: App, places: Seq<usize>, a: int, b: int)
    requires
        app.is_shown_order(places),
        app.scores().len() == app.daemons@.len(),
        0 <= a < b < places.len(),
    ensures
        ({
            let x = app.daemons@[places[a] as int];
            let y = app.daemons@[places[b] as int];
            let memory = |d: Daemon|
                if d.pid is Some && app.process_stats@.contains_key(d.pid->0) {
                    app.process_stats@[d.pid->0].memory_bytes as int
                } else {
                    0
                };
            let uptime = |d: Daemon|
                if d.pid is Some && app.process_stats@.contains_key(d.pid->0) {
                    app.process_stats@[d.pid->0].uptime_secs as int
                } else {
                    0
                };
            let name = |d: Daemon| text::lowercase(d.id@.namespace + "/"@ + d.id@.name);
            let up = app.sort_order == SortOrder::Ascending;
            &&& places[a] < app.daemons@.len() && places[b] < app.daemons@.len() && places[a]
                != places[b]
            &&& app.sort_column == SortColumn::Memory && up ==> memory(x) <= memory(y)
            &&& app.sort_column == SortColumn::Memory && !up ==> memory(x) >= memory(y)
            &&& app.sort_column == SortColumn::Uptime && up ==> uptime(x) <= uptime(y)
            &&& app.sort_column == SortColumn::Uptime && !up ==> uptime(x) >= uptime(y)
            &&& app.sort_column == SortColumn::Name && up ==> !text::text_before(name(y), name(x))
            &&& app.sort_column == SortColumn::Name && !up ==> !text::text_before(name(x), name(y))
            &&& app.sort_column == SortColumn::Status && up && y.status is Running ==> x.status
                is Running
            &&& app.sort_column == SortColumn::Status && up && x.status is Failed ==> y.status
                is Failed
            &&& app.sort_column == SortColumn::Status && up && x.status is Stopped ==> !(y.status
                is Running || y.status is Waiting || y.status is Stopping)
            &&& app.sort_column == SortColumn::Status && !up && x.status is Running ==> y.status
                is Running
            &&& app.sort_column == SortColumn::Status && !up && y.status is Failed ==> x.status
                is Failed
        }),
{
    let keys = app.sort_keys();
    let scores = app.scores();
    let down = app.sort_order == SortOrder::Descending;
    let i = places[a] as int;
    let j = places[b] as int;
    if app.sort_column != SortColumn::Cpu {
        if app.sort_column == SortColumn::Name {
            assert forall|i: int| 0 <= i < scores.len() && scores[i] is Some implies (
            #[trigger] keys[i]) is Text by {
                assert(keys[i] == app.sort_key(app.daemons@[i]));
            }
        } else {
            assert forall|i: int| 0 <= i < scores.len() && scores[i] is Some implies (
            #[trigger] keys[i]) is Number by {
                assert(keys[i] == app.sort_key(app.daemons@[i]));
            }
        }
        order::law_listings_are_sorted(places, keys, scores, down, a, b);
        assert(keys[i] == app.sort_key(app.daemons@[i]));
        assert(keys[j] == app.sort_key(app.daemons@[j]));
    } else {
        order::law_everything_with_a_score_is_listed(places, keys, scores, down, places[a]);
        order::law_everything_with_a_score_is_listed(places, keys, scores, down, places[b]);
        assert(places.contains(places[a]) && places.contains(places[b]));
    }
}

/// A daemon is shown where nothing is searched for, and where its name matches.
pub proof fn law_what_is_shown(app: App, i: int)
    ensures
        app.search_query@.len() == 0 ==> app.is_visible(i),
        app.search_query@.len() > 0 ==> (app.is_visible(i) <==> fuzzy::fuzzy_matches(
            app.daemons@[i].id@.namespace + "/"@ + app.daemons@[i].id@.name,
            app.search_query@,
        )),
        0 <= i ==> app.visible_among(i + 1) == app.visible_among(i) + (if app.is_visible(i) {
            1nat
        } else {
            0nat
        }),
        app.visible_among(0) == 0,
{
}

/// What a daemon uses is what its process was measured to use.
pub proof fn law_use_is_that_of_the_process(app: App, d: Daemon, pid: u32)
    ensures
        app.stats_of(pid) is Some <==> app.process_stats@.contains_key(pid),
        app.stats_of(pid) is Some ==> app.stats_of(pid)->0 == app.process_stats@[pid],
        d.pid is None ==> app.use_of(d) is None,
        d.pid == Some(pid) ==> app.use_of(d) == app.stats_of(pid),
{
}

/// A daemon counts as stopped where it is, unless it is only configured.
pub proof fn law_what_counts_as_stopped(app: App, d: Daemon)
    ensures
        app.counts_as_stopped(d) <==> d.status is Stopped && !app.config_daemon_ids@.contains(d.id@),
{
}

/// Going on leads to the place behind, and from the last to the first; going
/// back leads to the place before, and from the first to the last.
pub proof fn law_going_on_and_back(place: usize, count: nat)
    requires
        place < count <= usize::MAX,
    ensures
        place + 1 < count ==> next_place(place, count) == place + 1,
        place + 1 == count ==> next_place(place, count) == 0,
        place > 0 ==> prev_place(place, count) == place - 1,
        place == 0 ==> prev_place(place, count) == count - 1,
        next_place(place, 0) == place && prev_place(place, 0) == place,
{
    if place + 1 < count {
        vstd::arithmetic::div_mod::lemma_small_mod((place + 1) as nat, count);
    } else {
        vstd::arithmetic::div_mod::lemma_mod_self_0(count as int);
    }
}

/// The columns follow each other from the left to the right.
pub proof fn law_columns_follow_each_other()
    ensures
        SortColumn::Name.following() == SortColumn::Status,
        SortColumn::Status.following() == SortColumn::Cpu,
        SortColumn::Cpu.following() == SortColumn::Memory,
        SortColumn::Memory.following() == SortColumn::Uptime,
        SortColumn::Uptime.following() == SortColumn::Name,
        SortOrder::Ascending.reversed() == SortOrder::Descending,
        SortOrder::Descending.reversed() == SortOrder::Ascending,
{
}

// ---------------------------------------------------------------------------
// Laws: logs, messages and views
// ---------------------------------------------------------------------------

/// A number in its range stays; one below it becomes the first, and one above
/// it the last.
pub proof fn law_numbers_stay_in_range(n: int, max: nat)
    requires
        1 <= max <= usize::MAX,
    ensures
        1 <= n <= max ==> within(n, max) == n && at_least_one(n) == n,
        n < 1 ==> within(n, max) == 1 && at_least_one(n) == 1,
        n > max ==> within(n, max) == max,
{
}

/// What is shown of a log: its lines, or a note that there is none.
pub proof fn law_logs_are_shown(content: Seq<char>)
    ensures
        shown_log(Some(content)) == text::lines(content),
        shown_log(None) == seq!["No logs available"@],
{
}

/// A line matches where the text that is searched for stands in it, whatever
/// the case, and no line does where nothing is searched for.
pub proof fn law_lines_match_whatever_the_case(app: App, query: Seq<char>, i: int)
    ensures
        query.len() == 0 ==> !app.line_matches(query, i),
        query.len() > 0 ==> (app.line_matches(query, i) <==> exists|a: Seq<char>, b: Seq<char>|
            text::lowercase(app.log_content@[i]@) == #[trigger] (a + text::lowercase(query) + b)),
{
    text::law_occurring_is_standing_between(
        text::lowercase(app.log_content@[i]@),
        text::lowercase(query),
    );
}

/// A search finds every line that matches, and no other, in their order; it
/// goes to the first of them, and moves nothing where there is none.
pub proof fn law_a_search_finds_the_matching_lines(
    after: App,
    before: App,
    query: Seq<char>,
    i: usize,
)
    requires
        after.searched(before, query),
    ensures
        after.log_search_query@ == query,
        after.log_search_matches@.contains(i) <==> i < before.log_content@.len()
            && before.line_matches(query, i as int),
        forall|a: int, b: int|
            0 <= a < b < after.log_search_matches@.len() ==> (
            #[trigger] after.log_search_matches@[a]) < (#[trigger] after.log_search_matches@[b]),
        after.log_search_matches@.len() == 0 ==> after == (App {
            log_search_query: after.log_search_query,
            log_search_matches: after.log_search_matches,
            ..before
        }),
        after.log_search_matches@.len() > 0 ==> {
            let line = after.log_search_matches@[0];
            &&& after.log_search_current == 0
            &&& !after.log_follow
            &&& line > 11 ==> after.log_scroll == line - 10
            &&& line <= 11 ==> after.log_scroll == 1
            &&& after == (App {
                log_search_query: after.log_search_query,
                log_search_matches: after.log_search_matches,
                log_search_current: after.log_search_current,
                log_scroll: after.log_scroll,
                log_follow: after.log_follow,
                ..before
            })
        },
{
}

/// Going to a match shows it some lines below the top of the page, and no
/// longer follows the end of the log.
pub proof fn law_going_to_a_match(app: App, current: usize)
    ensures
        ({
            let after = app.at_match(current);
            let line = app.log_search_matches@[current as int];
            &&& after.log_search_current == current
            &&& current < app.log_search_matches@.len() ==> !after.log_follow && (if line > 11 {
                after.log_scroll == line - 10
            } else {
                after.log_scroll == 1
            })
            &&& current >= app.log_search_matches@.len() ==> after.log_follow == app.log_follow
                && after.log_scroll == app.log_scroll
            &&& after == (App {
                log_search_current: after.log_search_current,
                log_follow: after.log_follow,
                log_scroll: after.log_scroll,
                ..app
            })
        }),
{
}

/// A log that is read is shown line by line, at its end where the end is
/// followed or nothing was shown before, and else where it was.
pub proof fn law_a_log_is_read(after: App, before: App, log: Option<Seq<char>>)
    requires
        after.log_read(before, log),
        after.log_content@.len() <= usize::MAX,
    ensures
        log is Some ==> text::views(after.log_content@) == text::lines(log->0),
        log is None ==> text::views(after.log_content@) == seq!["No logs available"@],
        (before.log_follow || before.log_content@.len() == 0) && after.log_content@.len() > 0
            ==> after.log_scroll == after.log_content@.len(),
        (before.log_follow || before.log_content@.len() == 0) && after.log_content@.len() == 0
            ==> after.log_scroll == 1,
        !before.log_follow && before.log_content@.len() > 0 ==> after.log_scroll
            == before.log_scroll,
        after == (App {
            log_content: after.log_content,
            log_scroll: after.log_scroll,
            ..before
        }),
{
}

/// A message is stale once it has been there for the duration.
pub proof fn law_when_a_message_is_stale(app: App, now: u128, duration: u128)
    ensures
        app.message_time is None ==> !app.message_is_stale(now, duration),
        app.message_time is Some && now >= app.message_time->0 ==> (app.message_is_stale(
            now,
            duration,
        ) <==> now - app.message_time->0 >= duration),
        app.message_time is Some && now < app.message_time->0 ==> (app.message_is_stale(
            now,
            duration,
        ) <==> duration == 0),
{
}

/// What a refresh changes: the list, the figures and their histories; the
/// selection where the list became too short; a message that was there long
/// enough; and the log where one is shown. All else stays as it was.
pub proof fn law_what_a_refresh_changes(
    after: App,
    before: App,
    entries: Seq<DaemonListEntry>,
    at: Surroundings,
)
    requires
        after.refreshed(before, entries, at),
        after.visible_count() <= usize::MAX,
    ensures
        after.daemons@ == listed_daemons(entries, before.show_available),
        daemon::id_views(after.disabled@) == disabled_daemons(entries),
        after.config_daemon_ids@ == available_daemons(entries),
        after.process_stats@ == figures(after.daemons@, at.measured@),
        after.stats_history@ == histories(
            before.stats_history@,
            after.daemons@,
            at.measured@,
            at.stat_history,
        ),
        before.selected < after.visible_count() || after.visible_count() == 0 ==> after.selected
            == before.selected,
        before.selected >= after.visible_count() && after.visible_count() > 0 ==> after.selected
            == after.visible_count() - 1,
        before.message_is_stale(at.now, at.message_duration) ==> after.message is None
            && after.message_time is None,
        !before.message_is_stale(at.now, at.message_duration) ==> after.message == before.message
            && after.message_time == before.message_time,
        !(before.view == View::Logs && before.log_daemon_id is Some) ==> after.log_content
            == before.log_content && after.log_scroll == before.log_scroll,
        before.view == View::Logs && before.log_daemon_id is Some ==> text::views(
            after.log_content@,
        ) == shown_log(text::opt_view(at.log)),
        after == (App {
            daemons: after.daemons,
            disabled: after.disabled,
            config_daemon_ids: after.config_daemon_ids,
            process_stats: after.process_stats,
            stats_history: after.stats_history,
            selected: after.selected,
            message: after.message,
            message_time: after.message_time,
            log_content: after.log_content,
            log_scroll: after.log_scroll,
            ..before
        }),
{
}

/// While an action waits for an answer, the user is asked; after it, what was
/// shown before is shown again.
pub proof fn law_asking_shows_the_question(app: App, action: PendingAction)
    ensures
        app.asking(action).view == View::Confirm,
        app.asking(action).prev_view == app.view,
        app.asking(action).pending_action == Some(action),
        app.answered().view == app.prev_view,
        app.answered().pending_action is None,
        app.asking(action) == (App {
            pending_action: Some(action),
            prev_view: app.view,
            view: View::Confirm,
            ..app
        }),
        app.answered() == (App { pending_action: None, view: app.prev_view, ..app }),
{
}

/// A text is told with its time, and nothing else changes.
pub proof fn law_telling(after: App, before: App, msg: Seq<char>, now: u128)
    requires
        after.tells(before, msg, now),
    ensures
        after.message is Some && after.message->0@ == msg,
        after.message_time == Some(now),
        after == (App { message: after.message, message_time: after.message_time, ..before }),
{
}

/// The state at the start: the dashboard, an empty list by names upwards with
/// the configured daemons among them, nothing marked, asked, told or searched
/// for, and the end of the log followed.
pub proof fn law_a_fresh_start(app: App)
    requires
        app.is_initial(),
    ensures
        app.view == View::Dashboard && app.prev_view == View::Dashboard,
        app.daemons@.len() == 0 && app.disabled@.len() == 0 && app.selected == 0,
        app.sort_column == SortColumn::Name && app.sort_order == SortOrder::Ascending,
        app.show_available,
        app.multi_select@ == Set::<IdView>::empty() && app.config_daemon_ids@
            == Set::<IdView>::empty(),
        app.pending_action is None && app.message is None && app.message_time is None
            && app.loading_text is None,
        app.search_query@.len() == 0 && !app.search_active,
        app.log_search_query@.len() == 0 && !app.log_search_active
            && app.log_search_matches@.len() == 0 && app.log_search_current == 0,
        app.network_search_query@.len() == 0 && !app.network_search_active
            && app.network_listeners@.len() == 0 && app.network_selected == 0
            && app.network_scroll_offset == 0 && app.network_selected_pid is None
            && app.network_visible_rows == 20,
        app.log_follow && app.log_scroll == 1 && app.log_content@.len() == 0 && app.log_daemon_id
            is None && !app.logs_expanded,
        app.details_daemon_id is None && app.editor_state is None && app.file_selector is None,
        app.process_stats@ == Map::<u32, ProcessStats>::empty(),
        app.stats_history@ == Map::<IdView, Seq<StatsSnapshot>>::empty(),
{
}

/// What is taken back from a search is its last character.
pub proof fn law_searches_lose_their_last_character(query: Seq<char>, c: char)
    ensures
        text::without_last(query.push(c)) == query,
        text::without_last(Seq::empty()).len() == 0,
{
    assert(text::without_last(query.push(c)) =~= query);
}

/// How well daemons match: all alike where nothing is searched for, else as
/// well as their qualified names match, taken in the order of the list.
pub proof fn law_scores_are_those_of_the_names(app: App)
    ensures
        app.search_query@.len() == 0 ==> app.scores().len() == app.daemons@.len() && forall|i: int|
            0 <= i < app.daemons@.len() ==> #[trigger] app.scores()[i] == Some(0i64),
        app.search_query@.len() > 0 ==> app.scores() == fuzzy::fuzzy_scores(
            app.daemons@.map_values(|d: Daemon| d.id@.namespace + "/"@ + d.id@.name),
            app.search_query@,
        ),
{
    assert(app.names() =~= app.daemons@.map_values(
        |d: Daemon| d.id@.namespace + "/"@ + d.id@.name,
    ));
}

} // verus!
