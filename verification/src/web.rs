//! The pages of the web front end.
use vstd::prelude::*;

use crate::config::PitchforkToml;
use crate::daemon::{contains_id, Daemon, DaemonId, IdSet, IdView};
use crate::daemon;
use crate::lists;
use crate::text;
use crate::text::{clone_strings, number_text};

verus! {

// ---------------------------------------------------------------------------
// Texts
// ---------------------------------------------------------------------------

// The counts, piece by piece; one of the numbers stands behind each piece but
// the last.
pub const CARDS_0: &'static str = r##"<div class="stat-card">
            <div class="stat-value">"##;

pub const CARDS_1: &'static str = r##"</div>
            <div class="stat-label">Total</div>
        </div>
        <div class="stat-card running">
            <div class="stat-value">"##;

pub const CARDS_2: &'static str = r##"</div>
            <div class="stat-label">Running</div>
        </div>
        <div class="stat-card stopped">
            <div class="stat-value">"##;

pub const CARDS_3: &'static str = r##"</div>
            <div class="stat-label">Stopped</div>
        </div>
        <div class="stat-card errored">
            <div class="stat-value">"##;

pub const CARDS_4: &'static str = r##"</div>
            <div class="stat-label">Errored</div>
        </div>"##;

// The row of a daemon that is configured but not known, piece by piece; a form
// of its name or the address prefix stands behind each piece but the last.
pub const ROW_0: &'static str = r##"<tr id="daemon-"##;

pub const ROW_1: &'static str = r##"" class="clickable-row" onclick="window.location.href='"##;

pub const ROW_2: &'static str = r##"/daemons/"##;

pub const ROW_3: &'static str = r##"'">
                <td><a href=""##;

pub const ROW_4: &'static str = r##"" class="daemon-name" onclick="event.stopPropagation()">"##;

pub const ROW_5: &'static str = r##"</a></td>
                <td>-</td>
                <td><span class="status available">available</span></td>
                <td>-</td>
                <td>-</td>
                <td>-</td>
                <td></td>
                <td class="actions" onclick="event.stopPropagation()">
                    <button hx-post=""##;

pub const ROW_6: &'static str = r##"/start" hx-target="#daemon-"##;

pub const ROW_7: &'static str = r##"" hx-swap="outerHTML" class="btn btn-sm btn-primary"><i data-lucide="play" class="icon"></i> Start</button>
                </td>
            </tr>"##;

// The page, piece by piece; the address prefix, one of the numbers or the table
// stands behind each piece but the last.
pub const PAGE_0: &'static str = r##"<!DOCTYPE html>
<html lang="en">
<head>
    <meta charset="UTF-8">
    <meta name="viewport" content="width=device-width, initial-scale=1">
    <title>pitchfork</title>
    <link rel="icon" type="image/x-icon" href=""##;

pub const PAGE_1: &'static str = r##"/static/favicon.ico">
    <script src="https://unpkg.com/htmx.org@2.0.4"></script>
    <script src="https://unpkg.com/lucide@0.474.0"></script>
    <link rel="stylesheet" href=""##;

pub const PAGE_2: &'static str = r##"/static/style.css">
</head>
<body>
    <nav>
        <a href=""##;

pub const PAGE_3: &'static str = r##"/" class="nav-brand"><img src=""##;

pub const PAGE_4: &'static str = r##"/static/logo.png" alt="pitchfork" class="logo-icon"> pitchfork</a>
        <div class="nav-links">
            <a href=""##;

pub const PAGE_5: &'static str = r##"/" class="active">Dashboard</a>
            <a href=""##;

pub const PAGE_6: &'static str = r##"/logs">Logs</a>
            <a href=""##;

pub const PAGE_7: &'static str = r##"/config">Config</a>
        </div>
    </nav>
    <main>
        <div class="stats-grid" hx-get=""##;

pub const PAGE_8: &'static str = r##"/_stats" hx-trigger="every 5s" hx-swap="innerHTML swap:0.2s settle:0.2s">
            <div class="stat-card">
                <div class="stat-value">"##;

pub const PAGE_9: &'static str = r##"</div>
                <div class="stat-label">Total</div>
            </div>
            <div class="stat-card running">
                <div class="stat-value">"##;

pub const PAGE_10: &'static str = r##"</div>
                <div class="stat-label">Running</div>
            </div>
            <div class="stat-card stopped">
                <div class="stat-value">"##;

pub const PAGE_11: &'static str = r##"</div>
                <div class="stat-label">Stopped</div>
            </div>
            <div class="stat-card errored">
                <div class="stat-value">"##;

pub const PAGE_12: &'static str = r##"</div>
                <div class="stat-label">Errored</div>
            </div>
        </div>

        <table class="daemon-table">
            <thead>
                <tr>
                    <th>Name</th>
                    <th>PID</th>
                    <th>Status</th>
                    <th>CPU</th>
                    <th>Mem</th>
                    <th>Uptime</th>
                    <th>Error</th>
                    <th>Actions</th>
                </tr>
            </thead>
            <tbody id="daemon-list" hx-get=""##;

pub const PAGE_13: &'static str = r##"/daemons/_list" hx-trigger="every 5s" hx-swap="innerHTML swap:0.1s settle:0.1s">
                "##;

pub const PAGE_14: &'static str = r##"
            </tbody>
        </table>
    </main>
    <script>
        // Initialize Lucide icons on page load
        lucide.createIcons();

        // Re-initialize Lucide icons after HTMX swaps content
        document.body.addEventListener('htmx:afterSwap', function(evt) {
            lucide.createIcons();
        });

        // Optimize HTMX updates to reduce flicker
        document.body.addEventListener('htmx:beforeSwap', function(evt) {
            // Get the new content
            const newContent = evt.detail.xhr.responseText.trim();
            const currentContent = evt.detail.target.innerHTML.trim();

            // Normalize whitespace for comparison
            const normalize = (str) => str.replace(/\\s+/g, ' ').trim();

            // Only swap if content actually changed
            if (normalize(newContent) === normalize(currentContent)) {
                evt.detail.shouldSwap = false;
                evt.preventDefault();
            }
        });

        // Add smooth fade effect for stats updates
        document.body.addEventListener('htmx:beforeSwap', function(evt) {
            if (evt.detail.target.classList.contains('stats-grid')) {
                evt.detail.target.style.opacity = '0.7';
            }
        });

        document.body.addEventListener('htmx:afterSwap', function(evt) {
            if (evt.detail.target.classList.contains('stats-grid')) {
                setTimeout(() => {
                    evt.detail.target.style.opacity = '1';
                }, 50);
            }
        });
    </script>
</body>
</html>"##;

/// The row of an empty table.
pub const EMPTY_ROW: &'static str = r##"<tr><td colspan="8" class="empty">No daemons configured. Add some to pitchfork.toml</td></tr>"##;

/// Before and behind the error on the page, and in the place of the counts.
pub const PAGE_ERROR: &'static str = r##"<h1>Error</h1><p class="error">Failed to load configuration: "##;

pub const PAGE_ERROR_END: &'static str = "</p>";

pub const CARDS_ERROR: &'static str = r##"<div class="error">Failed to load configuration: "##;

pub const CARDS_ERROR_END: &'static str = "</div>";

// ---------------------------------------------------------------------------
// Counts
// ---------------------------------------------------------------------------

/// What the supervisor has written down.
#[derive(Debug)]
pub struct StateFile {
    /// The daemons that it knows.
    pub daemons: Vec<Daemon>,
    pub disabled: Vec<DaemonId>,
    /// The supervisor itself, which is listed among the daemons.
    pub supervisor: DaemonId,
}

/// How many daemons there are.
#[derive(Debug, Clone, Copy, PartialEq, Eq, Structural)]
pub struct Stats {
    pub total: usize,
    pub running: usize,
    pub stopped: usize,
    pub errored: usize,
}

impl StateFile {
    /// Whether a daemon is one of the user's.
    pub open spec fn is_user(self, d: Daemon) -> bool {
        d.id@ != self.supervisor@
    }

    /// Whether every daemon that is known is listed once.
    pub open spec fn lists_each_once(self) -> bool {
        forall|i: int, j: int|
            0 <= i < j < self.daemons@.len() ==> (#[trigger] self.daemons@[i]).id@ != (
            #[trigger] self.daemons@[j]).id@
    }

    /// The user's daemons that are known.
    pub open spec fn user_ids(self) -> Set<IdView> {
        Set::new(
            |id: IdView|
                exists|i: int|
                    0 <= i < self.daemons@.len() && self.is_user(#[trigger] self.daemons@[i])
                        && self.daemons@[i].id@ == id,
        )
    }

    /// The user's daemons that are known or configured.
    pub open spec fn all_ids(self, configured: Seq<IdView>) -> Set<IdView> {
        Set::new(|id: IdView| self.user_ids().contains(id) || configured.contains(id))
    }
}

/// What the counts stand for.
#[verifier::ext_equal]
pub struct StatsView {
    pub total: nat,
    pub running: nat,
    pub stopped: nat,
    pub errored: nat,
}

impl View for Stats {
    type V = StatsView;

    open spec fn view(&self) -> StatsView {
        StatsView {
            total: self.total as nat,
            running: self.running as nat,
            stopped: self.stopped as nat,
            errored: self.errored as nat,
        }
    }
}

/// The counts of the user's daemons: all that are known or configured, and of
/// those that are known the ones that run, are stopped, and ended with an error.
pub open spec fn stats_of(state: StateFile, configured: Seq<IdView>) -> StatsView {
    StatsView {
        total: state.all_ids(configured).len(),
        running: lists::count(
            state.daemons@,
            |d: Daemon| state.is_user(d) && d.status is Running,
        ),
        stopped: lists::count(
            state.daemons@,
            |d: Daemon| state.is_user(d) && d.status is Stopped,
        ),
        errored: lists::count(
            state.daemons@,
            |d: Daemon| state.is_user(d) && d.status is Errored,
        ),
    }
}

/// Counts the user's daemons.
pub fn get_stats(state: &StateFile, pt: &PitchforkToml) -> (r: Stats)
    ensures
        r@ == stats_of(*state, lists::keys(pt@)),
{
    let ghost all = state.daemons@;
    let ghost is_running = |d: Daemon| state.is_user(d) && d.status is Running;
    let ghost is_stopped = |d: Daemon| state.is_user(d) && d.status is Stopped;
    let ghost is_errored = |d: Daemon| state.is_user(d) && d.status is Errored;
    let mut ids = IdSet::new();
    let mut running: usize = 0;
    let mut stopped: usize = 0;
    let mut errored: usize = 0;
    let mut i: usize = 0;
    while i < state.daemons.len()
        invariant
            i <= state.daemons@.len(),
            all == state.daemons@,
            is_running == (|d: Daemon| state.is_user(d) && d.status is Running),
            is_stopped == (|d: Daemon| state.is_user(d) && d.status is Stopped),
            is_errored == (|d: Daemon| state.is_user(d) && d.status is Errored),
            running == lists::count(all.take(i as int), is_running) <= i,
            stopped == lists::count(all.take(i as int), is_stopped) <= i,
            errored == lists::count(all.take(i as int), is_errored) <= i,
            forall|id: IdView| #[trigger]
                ids@.contains(id) <==> exists|k: int|
                    0 <= k < i && state.is_user(#[trigger] all[k]) && all[k].id@ == id,
        decreases state.daemons@.len() - i,
    {
        let d = &state.daemons[i];
        proof {
            lists::lemma_count_step(all, is_running, i as int);
            lists::lemma_count_step(all, is_stopped, i as int);
            lists::lemma_count_step(all, is_errored, i as int);
            assert(all[i as int] == *d);
        }
        let ghost before = ids@;
        if !d.id.same(&state.supervisor) {
            if d.status.is_running() {
                running += 1;
            }
            if d.status.is_stopped() {
                stopped += 1;
            }
            if d.status.is_errored() {
                errored += 1;
            }
            ids.insert(d.id.clone());
        }
        proof {
            assert forall|id: IdView| #[trigger] ids@.contains(id) <==> exists|k: int|
                0 <= k < i + 1 && state.is_user(#[trigger] all[k]) && all[k].id@ == id by {
                if before.contains(id) {
                    let k = choose|k: int|
                        0 <= k < i && state.is_user(#[trigger] all[k]) && all[k].id@ == id;
                    assert(state.is_user(all[k]));
                }
                if state.is_user(*d) && d.id@ == id {
                    assert(state.is_user(all[i as int]));
                }
            }
        }
        i += 1;
    }
    proof {
        assert(all.take(i as int) =~= all);
        assert(ids@ =~= state.user_ids());
    }
    let configured = pt.ids();
    let ghost keys = lists::keys(pt@);
    let mut k: usize = 0;
    while k < configured.len()
        invariant
            k <= configured@.len(),
            keys == daemon::id_views(configured@),
            forall|id: IdView| #[trigger]
                ids@.contains(id) <==> state.user_ids().contains(id) || keys.take(
                    k as int,
                ).contains(id),
        decreases configured@.len() - k,
    {
        let ghost done = keys.take(k as int);
        let id = configured[k].clone();
        proof {
            assert(keys.take(k + 1) =~= done.push(id@));
            assert forall|v: IdView| #[trigger] done.push(id@).contains(v) == (done.contains(v) || v
                == id@) by {
                lists::lemma_push_contains(done, id@, v);
            }
        }
        ids.insert(id);
        k += 1;
    }
    proof {
        assert(keys.take(k as int) =~= keys);
        assert(ids@ =~= state.all_ids(keys));
    }
    Stats { total: ids.len(), running, stopped, errored }
}

/// The counts as the page shows them.
pub open spec fn cards(s: StatsView) -> Seq<char> {
    CARDS_0@
        + text::decimal(s.total)
        + CARDS_1@
        + text::decimal(s.running)
        + CARDS_2@
        + text::decimal(s.stopped)
        + CARDS_3@
        + text::decimal(s.errored)
        + CARDS_4@
}

fn cards_text(s: &Stats) -> (r: String)
    ensures
        r@ == cards(s@),
{
    let mut out = CARDS_0.to_owned();
    out.append(number_text(s.total as u64).as_str());
    out.append(CARDS_1);
    out.append(number_text(s.running as u64).as_str());
    out.append(CARDS_2);
    out.append(number_text(s.stopped as u64).as_str());
    out.append(CARDS_3);
    out.append(number_text(s.errored as u64).as_str());
    out.append(CARDS_4);
    out
}

/// The counts alone, or why the configuration could not be read, made safe for
/// a page.
pub fn stats_partial(state: &StateFile, config: &Result<PitchforkToml, String>) -> (r: String)
    ensures
        r@ == (match config {
            Ok(pt) => cards(stats_of(*state, lists::keys(pt@))),
            Err(e) => CARDS_ERROR@ + e@ + CARDS_ERROR_END@,
        }),
{
    match config {
        Ok(pt) => cards_text(&get_stats(state, pt)),
        Err(e) => {
            let mut out = CARDS_ERROR.to_owned();
            out.append(e.as_str());
            out.append(CARDS_ERROR_END);
            out
        },
    }
}

// ---------------------------------------------------------------------------
// The table
// ---------------------------------------------------------------------------

/// A daemon's name in the forms in which a page needs it.
#[derive(Debug)]
pub struct NameTexts {
    /// As the name of an element.
    pub safe_id: String,
    /// As a part of an address.
    pub url_id: String,
    /// As it is shown.
    pub display_html: String,
}

/// The row of a daemon that is configured but not known.
pub open spec fn available_row_of(bp: Seq<char>, t: NameTexts) -> Seq<char> {
    ROW_0@
        + t.safe_id@
        + ROW_1@
        + bp
        + ROW_2@
        + t.url_id@
        + ROW_3@
        + bp
        + ROW_2@
        + t.url_id@
        + ROW_4@
        + t.display_html@
        + ROW_5@
        + bp
        + ROW_2@
        + t.url_id@
        + ROW_6@
        + t.safe_id@
        + ROW_7@
}

/// The row of a daemon that is configured but not known.
pub fn available_row(bp: &str, t: &NameTexts) -> (r: String)
    ensures
        r@ == available_row_of(bp@, *t),
{
    let mut out = ROW_0.to_owned();
    out.append(t.safe_id.as_str());
    out.append(ROW_1);
    out.append(bp);
    out.append(ROW_2);
    out.append(t.url_id.as_str());
    out.append(ROW_3);
    out.append(bp);
    out.append(ROW_2);
    out.append(t.url_id.as_str());
    out.append(ROW_4);
    out.append(t.display_html.as_str());
    out.append(ROW_5);
    out.append(bp);
    out.append(ROW_2);
    out.append(t.url_id.as_str());
    out.append(ROW_6);
    out.append(t.safe_id.as_str());
    out.append(ROW_7);
    out
}

/// A row for one of the user's daemons that are known.
#[derive(Debug, Clone, Copy, PartialEq, Eq, Structural)]
pub struct KnownRow {
    /// The daemon's place.
    pub place: usize,
    pub is_disabled: bool,
}

impl StateFile {
    /// The rows for the first `n` daemons.
    pub open spec fn rows_among(self, n: int) -> Seq<KnownRow>
        decreases n,
    {
        if n <= 0 {
            Seq::empty()
        } else {
            let d = self.daemons@[n - 1];
            let rest = self.rows_among(n - 1);
            if self.is_user(d) {
                rest.push(
                    KnownRow {
                        place: (n - 1) as usize,
                        is_disabled: daemon::id_views(self.disabled@).contains(d.id@),
                    },
                )
            } else {
                rest
            }
        }
    }

    /// The rows for the user's daemons that are known, in order.
    pub open spec fn rows(self) -> Seq<KnownRow> {
        self.rows_among(self.daemons@.len() as int)
    }

    /// The rows for the user's daemons that are known, in order.
    pub fn known_rows(&self) -> (r: Vec<KnownRow>)
        ensures
            r@ == self.rows(),
    {
        let mut out: Vec<KnownRow> = Vec::new();
        let mut i: usize = 0;
        assert(out@ =~= self.rows_among(0));
        while i < self.daemons.len()
            invariant
                i <= self.daemons@.len(),
                out@ == self.rows_among(i as int),
            decreases self.daemons@.len() - i,
        {
            let d = &self.daemons[i];
            if !d.id.same(&self.supervisor) {
                out.push(
                    KnownRow { place: i, is_disabled: contains_id(&self.disabled, &d.id) },
                );
            }
            i += 1;
        }
        out
    }

    /// Whether a daemon is known, the supervisor among them.
    pub open spec fn knows(self, id: IdView) -> bool {
        exists|i: int| 0 <= i < self.daemons@.len() && (#[trigger] self.daemons@[i]).id@ == id
    }

    fn has(&self, id: &DaemonId) -> (r: bool)
        ensures
            r == self.knows(id@),
    {
        let mut i: usize = 0;
        while i < self.daemons.len()
            invariant
                i <= self.daemons@.len(),
                forall|k: int| 0 <= k < i ==> (#[trigger] self.daemons@[k]).id@ != id@,
            decreases self.daemons@.len() - i,
        {
            if self.daemons[i].id.same(id) {
                assert(self.daemons@[i as int].id@ == id@);
                return true;
            }
            i += 1;
        }
        false
    }

    /// The configured daemons that are not known, in order.
    pub open spec fn unknown(self, configured: Seq<IdView>) -> Seq<IdView> {
        configured.filter(|id: IdView| !self.knows(id))
    }

    /// The daemons that are configured but not known, in order.
    pub fn available(&self, pt: &PitchforkToml) -> (r: Vec<DaemonId>)
        ensures
            daemon::id_views(r@) == self.unknown(lists::keys(pt@)),
    {
        let configured = pt.ids();
        let ghost all = daemon::id_views(configured@);
        let ghost keep = |id: IdView| !self.knows(id);
        let mut out: Vec<DaemonId> = Vec::new();
        let mut i: usize = 0;
        proof {
            reveal(Seq::filter);
            assert(daemon::id_views(out@) =~= all.take(0).filter(keep));
        }
        while i < configured.len()
            invariant
                i <= configured@.len(),
                all == daemon::id_views(configured@),
                keep == (|id: IdView| !self.knows(id)),
                daemon::id_views(out@) == all.take(i as int).filter(keep),
            decreases configured@.len() - i,
        {
            let id = configured[i].clone();
            proof {
                reveal(Seq::filter);
                assert(all.take(i + 1).drop_last() =~= all.take(i as int));
                assert(all.take(i + 1).last() == id@);
                assert(keep(id@) == !self.knows(id@));
                assert(daemon::id_views(out@.push(id)) =~= daemon::id_views(out@).push(id@));
            }
            if !self.has(&id) {
                out.push(id);
            }
            i += 1;
        }
        assert(all.take(i as int) =~= all);
        out
    }
}

/// The rows one after the other.
pub open spec fn concatenated(rows: Seq<Seq<char>>) -> Seq<char>
    decreases rows.len(),
{
    if rows.len() == 0 {
        Seq::empty()
    } else {
        concatenated(rows.drop_last()) + rows.last()
    }
}

/// The body of the table; a note where there are no rows.
pub open spec fn table_body(rows: Seq<Seq<char>>) -> Seq<char> {
    if concatenated(rows).len() == 0 {
        EMPTY_ROW@
    } else {
        concatenated(rows)
    }
}

/// The body of the table, from its rows.
pub fn table_rows(rows: &Vec<String>) -> (r: String)
    ensures
        r@ == table_body(text::views(rows@)),
{
    let ghost all = text::views(rows@);
    let mut out = String::new();
    let mut i: usize = 0;
    assert(out@ =~= concatenated(all.take(0)));
    while i < rows.len()
        invariant
            i <= rows@.len(),
            all == text::views(rows@),
            out@ == concatenated(all.take(i as int)),
        decreases rows@.len() - i,
    {
        proof {
            assert(all.take(i + 1).drop_last() =~= all.take(i as int));
            assert(all.take(i + 1).last() == rows@[i as int]@);
        }
        out.append(rows[i].as_str());
        i += 1;
    }
    assert(all.take(i as int) =~= all);
    if out.as_str().is_empty() {
        EMPTY_ROW.to_owned()
    } else {
        out
    }
}

// ---------------------------------------------------------------------------
// The page
// ---------------------------------------------------------------------------

/// The page with the counts and the table.
pub open spec fn page_of(bp: Seq<char>, s: StatsView, rows: Seq<char>) -> Seq<char> {
    PAGE_0@
        + bp
        + PAGE_1@
        + bp
        + PAGE_2@
        + bp
        + PAGE_3@
        + bp
        + PAGE_4@
        + bp
        + PAGE_5@
        + bp
        + PAGE_6@
        + bp
        + PAGE_7@
        + bp
        + PAGE_8@
        + text::decimal(s.total)
        + PAGE_9@
        + text::decimal(s.running)
        + PAGE_10@
        + text::decimal(s.stopped)
        + PAGE_11@
        + text::decimal(s.errored)
        + PAGE_12@
        + bp
        + PAGE_13@
        + rows
        + PAGE_14@
}

fn page_text(bp: &str, s: &Stats, rows: &str) -> (r: String)
    ensures
        r@ == page_of(bp@, s@, rows@),
{
    let mut out = PAGE_0.to_owned();
    out.append(bp);
    out.append(PAGE_1);
    out.append(bp);
    out.append(PAGE_2);
    out.append(bp);
    out.append(PAGE_3);
    out.append(bp);
    out.append(PAGE_4);
    out.append(bp);
    out.append(PAGE_5);
    out.append(bp);
    out.append(PAGE_6);
    out.append(bp);
    out.append(PAGE_7);
    out.append(bp);
    out.append(PAGE_8);
    out.append(number_text(s.total as u64).as_str());
    out.append(PAGE_9);
    out.append(number_text(s.running as u64).as_str());
    out.append(PAGE_10);
    out.append(number_text(s.stopped as u64).as_str());
    out.append(PAGE_11);
    out.append(number_text(s.errored as u64).as_str());
    out.append(PAGE_12);
    out.append(bp);
    out.append(PAGE_13);
    out.append(rows);
    out.append(PAGE_14);
    out
}

/// The rows of the daemons that are configured but not known.
pub open spec fn available_rows(bp: Seq<char>, names: Seq<NameTexts>) -> Seq<Seq<char>> {
    names.map_values(|t: NameTexts| available_row_of(bp, t))
}

fn all_rows(bp: &str, known: &Vec<String>, available: &Vec<NameTexts>) -> (r: Vec<String>)
    ensures
        text::views(r@) == text::views(known@) + available_rows(bp@, available@),
{
    let mut rows = clone_strings(known);
    let ghost names = available_rows(bp@, available@);
    let mut i: usize = 0;
    assert(names.take(0) =~= Seq::<Seq<char>>::empty());
    while i < available.len()
        invariant
            i <= available@.len(),
            names == available_rows(bp@, available@),
            text::views(rows@) == text::views(known@) + names.take(i as int),
        decreases available@.len() - i,
    {
        let ghost before = rows@;
        let row = available_row(bp, &available[i]);
        proof {
            assert(names[i as int] == row@);
            assert(names.take(i + 1) =~= names.take(i as int).push(row@));
            assert(text::views(before.push(row)) =~= text::views(before).push(row@));
        }
        rows.push(row);
        i += 1;
    }
    proof {
        assert(names.take(i as int) =~= names);
    }
    rows
}

/// The page with the counts and the table, or why the configuration could not
/// be read, made safe for a page. `known` holds the text of each row of
/// [`StateFile::known_rows`], `available` the name of each daemon of
/// [`StateFile::available`].
pub fn index(
    bp: &str,
    state: &StateFile,
    config: &Result<PitchforkToml, String>,
    known: &Vec<String>,
    available: &Vec<NameTexts>,
) -> (r: String)
    requires
        config matches Ok(pt) ==> known@.len() == state.rows().len() && available@.len()
            == state.unknown(lists::keys(pt@)).len(),
    ensures
        r@ == (match config {
            Ok(pt) => page_of(
                bp@,
                stats_of(*state, lists::keys(pt@)),
                table_body(text::views(known@) + available_rows(bp@, available@)),
            ),
            Err(e) => PAGE_ERROR@ + e@ + PAGE_ERROR_END@,
        }),
{
    match config {
        Ok(pt) => {
            let rows = table_rows(&all_rows(bp, known, available));
            page_text(bp, &get_stats(state, pt), rows.as_str())
        },
        Err(e) => {
            let mut out = PAGE_ERROR.to_owned();
            out.append(e.as_str());
            out.append(PAGE_ERROR_END);
            out
        },
    }
}

// ---------------------------------------------------------------------------
// Laws
// ---------------------------------------------------------------------------

/// The identifiers of the user's daemons among the first `n`, in order.
spec fn user_list(state: StateFile, n: int) -> Seq<IdView>
    decreases n,
{
    if n <= 0 {
        Seq::empty()
    } else {
        let rest = user_list(state, n - 1);
        let d = state.daemons@[n - 1];
        if state.is_user(d) {
            rest.push(d.id@)
        } else {
            rest
        }
    }
}

proof fn lemma_user_list(state: StateFile, n: int)
    requires
        0 <= n <= state.daemons@.len(),
        state.lists_each_once(),
    ensures
        user_list(state, n).len() == state.rows_among(n).len(),
        user_list(state, n).no_duplicates(),
        forall|id: IdView| #[trigger]
            user_list(state, n).contains(id) <==> exists|i: int|
                0 <= i < n && state.is_user(#[trigger] state.daemons@[i]) && state.daemons@[i].id@
                    == id,
    decreases n,
{
    if n > 0 {
        lemma_user_list(state, n - 1);
        let rest = user_list(state, n - 1);
        let d = state.daemons@[n - 1];
        if state.is_user(d) {
            if rest.contains(d.id@) {
                let i = choose|i: int|
                    0 <= i < n - 1 && state.is_user(#[trigger] state.daemons@[i])
                        && state.daemons@[i].id@ == d.id@;
                assert(state.daemons@[i].id@ != state.daemons@[n - 1].id@);
            }
            lists::lemma_push_distinct(rest, d.id@);
        }
        assert forall|id: IdView| #[trigger]
            user_list(state, n).contains(id) <==> exists|i: int|
                0 <= i < n && state.is_user(#[trigger] state.daemons@[i]) && state.daemons@[i].id@
                    == id by {
            lists::lemma_push_contains(rest, d.id@, id);
            if rest.contains(id) {
                let i = choose|i: int|
                    0 <= i < n - 1 && state.is_user(#[trigger] state.daemons@[i])
                        && state.daemons@[i].id@ == id;
                assert(state.is_user(state.daemons@[i]));
            }
            if state.is_user(d) && d.id@ == id {
                assert(state.is_user(state.daemons@[n - 1]));
            }
        }
    }
}

/// Where every known daemon is listed once, the rows of the table are as many
/// as the total says: one for each of the user's daemons that are known, and
/// one for each daemon that is configured but not known. The supervisor has no
/// row once it is known, so it must not be configured then.
pub proof fn law_rows_add_up_to_the_total(state: StateFile, configured: Seq<IdView>)
    requires
        state.lists_each_once(),
        configured.no_duplicates(),
        !(configured.contains(state.supervisor@) && state.knows(state.supervisor@)),
    ensures
        state.rows().len() + state.unknown(configured).len() == stats_of(state, configured).total,
{
    let n = state.daemons@.len() as int;
    let known = user_list(state, n);
    let keep = |id: IdView| !state.knows(id);
    let others = state.unknown(configured);
    let all = known + others;
    lemma_user_list(state, n);
    lists::lemma_filter_distinct(configured, keep);
    assert forall|id: IdView| #[trigger] others.contains(id) <==> configured.contains(id) && keep(
        id,
    ) by {
        lists::lemma_filter_members(configured, keep, id);
    }
    assert forall|i: int, j: int| 0 <= i < all.len() && 0 <= j < all.len() && i != j implies all[i]
        != all[j] by {
        if i < known.len() && j >= known.len() {
            assert(known.contains(all[i]));
            assert(others.contains(others[j - known.len()]));
        }
        if j < known.len() && i >= known.len() {
            assert(known.contains(all[j]));
            assert(others.contains(others[i - known.len()]));
        }
    }
    all.unique_seq_to_set();
    assert forall|id: IdView| all.to_set().contains(id) == state.all_ids(configured).contains(
        id,
    ) by {
        if known.contains(id) {
            let k = known.index_of(id);
            assert(all[k] == id);
        }
        if others.contains(id) {
            let k = others.index_of(id);
            assert(all[known.len() + k] == id);
        }
        if all.contains(id) {
            let k = all.index_of(id);
            if k < known.len() {
                assert(known[k] == id);
            } else {
                assert(others[k - known.len()] == id);
            }
        }
        if configured.contains(id) && state.knows(id) {
            let i = choose|i: int|
                0 <= i < state.daemons@.len() && (#[trigger] state.daemons@[i]).id@ == id;
            assert(state.is_user(state.daemons@[i]));
        }
    }
    assert(all.to_set() =~= state.all_ids(configured));
}

/// Where every known daemon is listed once, the daemons that run, are stopped,
/// and ended with an error are together no more than the total.
pub proof fn law_counts_stay_within_the_total(state: StateFile, configured: Seq<IdView>)
    requires
        state.lists_each_once(),
    ensures
        ({
            let s = stats_of(state, configured);
            s.running + s.stopped + s.errored <= s.total
        }),
{
    let n = state.daemons@.len() as int;
    let known = user_list(state, n);
    lemma_user_list(state, n);
    lemma_counts_among(state, n);
    assert(state.daemons@.take(n) =~= state.daemons@);
    known.unique_seq_to_set();
    let all = state.all_ids(configured);
    assert(known.to_set() =~= state.user_ids());
    assert(all =~= known.to_set().union(configured.to_set()));
    vstd::set_lib::lemma_len_subset(known.to_set(), all);
}

proof fn lemma_counts_among(state: StateFile, n: int)
    requires
        0 <= n <= state.daemons@.len(),
    ensures
        lists::count(
            state.daemons@.take(n),
            |d: Daemon| state.is_user(d) && d.status is Running,
        ) + lists::count(
            state.daemons@.take(n),
            |d: Daemon| state.is_user(d) && d.status is Stopped,
        ) + lists::count(
            state.daemons@.take(n),
            |d: Daemon| state.is_user(d) && d.status is Errored,
        ) <= state.rows_among(n).len(),
    decreases n,
{
    if n > 0 {
        lemma_counts_among(state, n - 1);
        let all = state.daemons@;
        lists::lemma_count_step(all, |d: Daemon| state.is_user(d) && d.status is Running, n - 1);
        lists::lemma_count_step(all, |d: Daemon| state.is_user(d) && d.status is Stopped, n - 1);
        lists::lemma_count_step(all, |d: Daemon| state.is_user(d) && d.status is Errored, n - 1);
    }
}

/// The table of the page has as many rows as the total says; where that is
/// none, it is the note that there are no daemons. The rows stand one after the
/// other where those of the known daemons are not empty.
pub proof fn law_page_has_a_row_for_each(
    state: StateFile,
    configured: Seq<IdView>,
    bp: Seq<char>,
    known: Seq<Seq<char>>,
    available: Seq<NameTexts>,
)
    requires
        state.lists_each_once(),
        configured.no_duplicates(),
        !(configured.contains(state.supervisor@) && state.knows(state.supervisor@)),
        known.len() == state.rows().len(),
        available.len() == state.unknown(configured).len(),
    ensures
        ({
            let rows = known + available_rows(bp, available);
            let total = stats_of(state, configured).total;
            &&& rows.len() == total
            &&& total == 0 ==> table_body(rows) == EMPTY_ROW@
            &&& total > 0 && (forall|i: int| 0 <= i < known.len() ==> (#[trigger] known[i]).len()
                > 0) ==> table_body(rows) == concatenated(rows)
        }),
{
    law_rows_add_up_to_the_total(state, configured);
    let rows = known + available_rows(bp, available);
    if rows.len() > 0 && (forall|i: int| 0 <= i < known.len() ==> (#[trigger] known[i]).len() > 0) {
        reveal_strlit("<tr id=\"daemon-");
        assert(rows.last().len() > 0) by {
            if available.len() == 0 {
                assert(rows.last() == known[known.len() - 1]);
            } else {
                assert(rows.last() == available_row_of(bp, available.last()));
            }
        }
    }
}

/// The supervisor has no row, and every other known daemon has exactly one.
pub proof fn law_rows_are_the_users_daemons(state: StateFile, n: int, i: int)
    requires
        0 <= i < n <= state.daemons@.len(),
        n <= usize::MAX,
    ensures
        (exists|k: int|
            0 <= k < state.rows_among(n).len() && (#[trigger] state.rows_among(n)[k]).place == i)
            <==> state.is_user(state.daemons@[i]),
        state.rows_among(n).len() == lists::count(
            state.daemons@.take(n),
            |d: Daemon| state.is_user(d),
        ),
    decreases n,
{
    let users = |d: Daemon| state.is_user(d);
    lists::lemma_count_step(state.daemons@, users, n - 1);
    let all = state.rows_among(n);
    let rest = state.rows_among(n - 1);
    lemma_rows_before(state, n - 1);
    if n - 1 > 0 {
        law_rows_are_the_users_daemons(
            state,
            n - 1,
            if i < n - 1 {
                i
            } else {
                0
            },
        );
    } else {
        assert(state.daemons@.take(0).len() == 0);
    }
    if i < n - 1 {
        if exists|k: int| 0 <= k < rest.len() && (#[trigger] rest[k]).place == i {
            let k = choose|k: int| 0 <= k < rest.len() && (#[trigger] rest[k]).place == i;
            assert(all[k].place == i);
        }
        if exists|k: int| 0 <= k < all.len() && (#[trigger] all[k]).place == i {
            let k = choose|k: int| 0 <= k < all.len() && (#[trigger] all[k]).place == i;
            assert(k < rest.len());
            assert(rest[k].place == i);
        }
    } else {
        if state.is_user(state.daemons@[i]) {
            assert(all[rest.len() as int].place == i);
        } else if exists|k: int| 0 <= k < all.len() && (#[trigger] all[k]).place == i {
            let k = choose|k: int| 0 <= k < all.len() && (#[trigger] all[k]).place == i;
            assert(rest[k].place < n - 1);
        }
    }
}

proof fn lemma_rows_before(state: StateFile, n: int)
    requires
        0 <= n <= state.daemons@.len(),
        n <= usize::MAX,
    ensures
        forall|k: int|
            0 <= k < state.rows_among(n).len() ==> (#[trigger] state.rows_among(n)[k]).place < n,
    decreases n,
{
    if n > 0 {
        lemma_rows_before(state, n - 1);
        let rest = state.rows_among(n - 1);
        let all = state.rows_among(n);
        assert forall|k: int| 0 <= k < all.len() implies (#[trigger] all[k]).place < n by {
            if k < rest.len() {
                assert(rest[k].place < n - 1);
            }
        }
    }
}

/// Whether a text stands in another one.
pub open spec fn holds(page: Seq<char>, piece: Seq<char>) -> bool {
    exists|at: int| #[trigger] stands_at(page, piece, at)
}

/// Whether a text stands in another one in this place.
pub open spec fn stands_at(page: Seq<char>, piece: Seq<char>, at: int) -> bool {
    0 <= at && at + piece.len() <= page.len() && page.subrange(at, at + piece.len()) == piece
}

/// Whether a text begins with another one.
spec fn begins(page: Seq<char>, start: Seq<char>) -> bool {
    start.len() <= page.len() && page.take(start.len() as int) == start
}

proof fn lemma_begins_itself(page: Seq<char>)
    ensures
        begins(page, page),
{
    assert(page.take(page.len() as int) =~= page);
}

proof fn lemma_begins(start: Seq<char>, piece: Seq<char>, page: Seq<char>)
    requires
        begins(page, start + piece),
    ensures
        begins(page, start),
{
    let longer = start + piece;
    assert(longer.take(start.len() as int) =~= start);
    assert(page.take(start.len() as int) =~= page.take(longer.len() as int).take(
        start.len() as int,
    ));
}

proof fn lemma_holds(before: Seq<char>, piece: Seq<char>, page: Seq<char>)
    requires
        begins(page, before + piece),
    ensures
        holds(page, piece),
{
    let at = before.len() as int;
    let start = before + piece;
    assert(start.subrange(at, at + piece.len()) =~= piece);
    assert(page.subrange(at, at + piece.len()) =~= page.take(start.len() as int).subrange(
        at,
        at + piece.len(),
    ));
    assert(stands_at(page, piece, at));
}

proof fn lemma_holds_first(a: Seq<char>, b: Seq<char>, c: Seq<char>, page: Seq<char>)
    requires
        begins(page, a + b + c),
    ensures
        holds(page, a + b + c),
{
    let none = Seq::<char>::empty();
    assert(none + (a + b + c) =~= a + b + c);
    lemma_holds(none, a + b + c, page);
}

proof fn lemma_holds_three(
    before: Seq<char>,
    a: Seq<char>,
    b: Seq<char>,
    c: Seq<char>,
    page: Seq<char>,
)
    requires
        begins(page, before + a + b + c),
    ensures
        holds(page, a + b + c),
{
    assert(before + a + b + c =~= before + (a + b + c));
    lemma_holds(before, a + b + c, page);
}

proof fn lemma_holds_five(
    before: Seq<char>,
    a: Seq<char>,
    b: Seq<char>,
    c: Seq<char>,
    d: Seq<char>,
    e: Seq<char>,
    page: Seq<char>,
)
    requires
        begins(page, before + a + b + c + d + e),
    ensures
        holds(page, a + b + c + d + e),
{
    assert(before + a + b + c =~= before + (a + b + c));
    assert(before + (a + b + c) + d + e =~= before + (a + b + c + d + e));
    lemma_holds(before, a + b + c + d + e, page);
}

/// Each card of the page shows the count that its label names: between the
/// piece that opens the card and the one that begins with the label there is
/// that count alone.
pub proof fn law_each_card_shows_its_count(bp: Seq<char>, s: StatsView, rows: Seq<char>)
    ensures
        holds(page_of(bp, s, rows), PAGE_8@ + text::decimal(s.total) + PAGE_9@),
        holds(page_of(bp, s, rows), PAGE_9@ + text::decimal(s.running) + PAGE_10@),
        holds(page_of(bp, s, rows), PAGE_10@ + text::decimal(s.stopped) + PAGE_11@),
        holds(page_of(bp, s, rows), PAGE_11@ + text::decimal(s.errored) + PAGE_12@),
{
    let t0 = PAGE_0@;
    let t1 = t0 + bp;
    let t2 = t1 + PAGE_1@;
    let t3 = t2 + bp;
    let t4 = t3 + PAGE_2@;
    let t5 = t4 + bp;
    let t6 = t5 + PAGE_3@;
    let t7 = t6 + bp;
    let t8 = t7 + PAGE_4@;
    let t9 = t8 + bp;
    let t10 = t9 + PAGE_5@;
    let t11 = t10 + bp;
    let t12 = t11 + PAGE_6@;
    let t13 = t12 + bp;
    let t14 = t13 + PAGE_7@;
    let t15 = t14 + bp;
    let t16 = t15 + PAGE_8@;
    let t17 = t16 + text::decimal(s.total);
    let t18 = t17 + PAGE_9@;
    let t19 = t18 + text::decimal(s.running);
    let t20 = t19 + PAGE_10@;
    let t21 = t20 + text::decimal(s.stopped);
    let t22 = t21 + PAGE_11@;
    let t23 = t22 + text::decimal(s.errored);
    let t24 = t23 + PAGE_12@;
    let t25 = t24 + bp;
    let t26 = t25 + PAGE_13@;
    let t27 = t26 + rows;
    let t28 = t27 + PAGE_14@;
    assert(page_of(bp, s, rows) == t28);
    lemma_begins_itself(t28);
    lemma_begins(t27, PAGE_14@, t28);
    lemma_begins(t26, rows, t28);
    lemma_begins(t25, PAGE_13@, t28);
    lemma_begins(t24, bp, t28);
    lemma_begins(t23, PAGE_12@, t28);
    lemma_begins(t22, text::decimal(s.errored), t28);
    lemma_begins(t21, PAGE_11@, t28);
    lemma_begins(t20, text::decimal(s.stopped), t28);
    lemma_begins(t19, PAGE_10@, t28);
    lemma_begins(t18, text::decimal(s.running), t28);
    lemma_holds_three(t15, PAGE_8@, text::decimal(s.total), PAGE_9@, t28);
    lemma_holds_three(t17, PAGE_9@, text::decimal(s.running), PAGE_10@, t28);
    lemma_holds_three(t19, PAGE_10@, text::decimal(s.stopped), PAGE_11@, t28);
    lemma_holds_three(t21, PAGE_11@, text::decimal(s.errored), PAGE_12@, t28);
}

/// So do the cards where they are asked for alone.
pub proof fn law_the_cards_alone_show_the_same(s: StatsView)
    ensures
        holds(cards(s), CARDS_0@ + text::decimal(s.total) + CARDS_1@),
        holds(cards(s), CARDS_1@ + text::decimal(s.running) + CARDS_2@),
        holds(cards(s), CARDS_2@ + text::decimal(s.stopped) + CARDS_3@),
        holds(cards(s), CARDS_3@ + text::decimal(s.errored) + CARDS_4@),
{
    let t0 = CARDS_0@;
    let t1 = t0 + text::decimal(s.total);
    let t2 = t1 + CARDS_1@;
    let t3 = t2 + text::decimal(s.running);
    let t4 = t3 + CARDS_2@;
    let t5 = t4 + text::decimal(s.stopped);
    let t6 = t5 + CARDS_3@;
    let t7 = t6 + text::decimal(s.errored);
    let t8 = t7 + CARDS_4@;
    assert(cards(s) == t8);
    lemma_begins_itself(t8);
    lemma_begins(t7, CARDS_4@, t8);
    lemma_begins(t6, text::decimal(s.errored), t8);
    lemma_begins(t5, CARDS_3@, t8);
    lemma_begins(t4, text::decimal(s.stopped), t8);
    lemma_begins(t3, CARDS_2@, t8);
    lemma_begins(t2, text::decimal(s.running), t8);
    lemma_holds_first(CARDS_0@, text::decimal(s.total), CARDS_1@, t8);
    lemma_holds_three(t1, CARDS_1@, text::decimal(s.running), CARDS_2@, t8);
    lemma_holds_three(t3, CARDS_2@, text::decimal(s.stopped), CARDS_3@, t8);
    lemma_holds_three(t5, CARDS_3@, text::decimal(s.errored), CARDS_4@, t8);
}

/// The table stands in the page as a whole, and every address on the page
/// begins with the prefix.
pub proof fn law_the_page_holds_the_table(bp: Seq<char>, s: StatsView, rows: Seq<char>)
    ensures
        holds(page_of(bp, s, rows), PAGE_0@ + bp + PAGE_1@),
        holds(page_of(bp, s, rows), PAGE_1@ + bp + PAGE_2@),
        holds(page_of(bp, s, rows), PAGE_2@ + bp + PAGE_3@),
        holds(page_of(bp, s, rows), PAGE_3@ + bp + PAGE_4@),
        holds(page_of(bp, s, rows), PAGE_4@ + bp + PAGE_5@),
        holds(page_of(bp, s, rows), PAGE_5@ + bp + PAGE_6@),
        holds(page_of(bp, s, rows), PAGE_6@ + bp + PAGE_7@),
        holds(page_of(bp, s, rows), PAGE_7@ + bp + PAGE_8@),
        holds(page_of(bp, s, rows), PAGE_12@ + bp + PAGE_13@),
        holds(page_of(bp, s, rows), PAGE_13@ + rows + PAGE_14@),
{
    let t0 = PAGE_0@;
    let t1 = t0 + bp;
    let t2 = t1 + PAGE_1@;
    let t3 = t2 + bp;
    let t4 = t3 + PAGE_2@;
    let t5 = t4 + bp;
    let t6 = t5 + PAGE_3@;
    let t7 = t6 + bp;
    let t8 = t7 + PAGE_4@;
    let t9 = t8 + bp;
    let t10 = t9 + PAGE_5@;
    let t11 = t10 + bp;
    let t12 = t11 + PAGE_6@;
    let t13 = t12 + bp;
    let t14 = t13 + PAGE_7@;
    let t15 = t14 + bp;
    let t16 = t15 + PAGE_8@;
    let t17 = t16 + text::decimal(s.total);
    let t18 = t17 + PAGE_9@;
    let t19 = t18 + text::decimal(s.running);
    let t20 = t19 + PAGE_10@;
    let t21 = t20 + text::decimal(s.stopped);
    let t22 = t21 + PAGE_11@;
    let t23 = t22 + text::decimal(s.errored);
    let t24 = t23 + PAGE_12@;
    let t25 = t24 + bp;
    let t26 = t25 + PAGE_13@;
    let t27 = t26 + rows;
    let t28 = t27 + PAGE_14@;
    assert(page_of(bp, s, rows) == t28);
    lemma_begins_itself(t28);
    lemma_begins(t27, PAGE_14@, t28);
    lemma_begins(t26, rows, t28);
    lemma_begins(t25, PAGE_13@, t28);
    lemma_begins(t24, bp, t28);
    lemma_begins(t23, PAGE_12@, t28);
    lemma_begins(t22, text::decimal(s.errored), t28);
    lemma_begins(t21, PAGE_11@, t28);
    lemma_begins(t20, text::decimal(s.stopped), t28);
    lemma_begins(t19, PAGE_10@, t28);
    lemma_begins(t18, text::decimal(s.running), t28);
    lemma_begins(t17, PAGE_9@, t28);
    lemma_begins(t16, text::decimal(s.total), t28);
    lemma_begins(t15, PAGE_8@, t28);
    lemma_begins(t14, bp, t28);
    lemma_begins(t13, PAGE_7@, t28);
    lemma_begins(t12, bp, t28);
    lemma_begins(t11, PAGE_6@, t28);
    lemma_begins(t10, bp, t28);
    lemma_begins(t9, PAGE_5@, t28);
    lemma_begins(t8, bp, t28);
    lemma_begins(t7, PAGE_4@, t28);
    lemma_begins(t6, bp, t28);
    lemma_begins(t5, PAGE_3@, t28);
    lemma_begins(t4, bp, t28);
    lemma_begins(t3, PAGE_2@, t28);
    lemma_begins(t2, bp, t28);
    lemma_holds_first(PAGE_0@, bp, PAGE_1@, t28);
    lemma_holds_three(t1, PAGE_1@, bp, PAGE_2@, t28);
    lemma_holds_three(t3, PAGE_2@, bp, PAGE_3@, t28);
    lemma_holds_three(t5, PAGE_3@, bp, PAGE_4@, t28);
    lemma_holds_three(t7, PAGE_4@, bp, PAGE_5@, t28);
    lemma_holds_three(t9, PAGE_5@, bp, PAGE_6@, t28);
    lemma_holds_three(t11, PAGE_6@, bp, PAGE_7@, t28);
    lemma_holds_three(t13, PAGE_7@, bp, PAGE_8@, t28);
    lemma_holds_three(t23, PAGE_12@, bp, PAGE_13@, t28);
    lemma_holds_three(t25, PAGE_13@, rows, PAGE_14@, t28);
}

/// The piece behind each count begins with the label of that count.
pub proof fn law_the_counts_are_labelled()
    ensures
        PAGE_9@.subrange(47, 52) == "Total"@,
        PAGE_10@.subrange(47, 54) == "Running"@,
        PAGE_11@.subrange(47, 54) == "Stopped"@,
        PAGE_12@.subrange(47, 54) == "Errored"@,
        CARDS_1@.subrange(43, 48) == "Total"@,
        CARDS_2@.subrange(43, 50) == "Running"@,
        CARDS_3@.subrange(43, 50) == "Stopped"@,
        CARDS_4@.subrange(43, 50) == "Errored"@,
{
    reveal_strlit("Total");
    reveal_strlit("Running");
    reveal_strlit("Stopped");
    reveal_strlit("Errored");
    reveal_strlit(
        r##"</div>
                <div class="stat-label">Total</div>
            </div>
            <div class="stat-card running">
                <div class="stat-value">"##,
    );
    reveal_strlit(
        r##"</div>
                <div class="stat-label">Running</div>
            </div>
            <div class="stat-card stopped">
                <div class="stat-value">"##,
    );
    reveal_strlit(
        r##"</div>
                <div class="stat-label">Stopped</div>
            </div>
            <div class="stat-card errored">
                <div class="stat-value">"##,
    );
    reveal_strlit(
        r##"</div>
                <div class="stat-label">Errored</div>
            </div>
        </div>

        <table class="daemon-table">
            <thead>
                <tr>
                    <th>Name</th>
                    <th>PID</th>
                    <th>Status</th>
                    <th>CPU</th>
                    <th>Mem</th>
                    <th>Uptime</th>
                    <th>Error</th>
                    <th>Actions</th>
                </tr>
            </thead>
            <tbody id="daemon-list" hx-get=""##,
    );
    reveal_strlit(
        r##"</div>
            <div class="stat-label">Total</div>
        </div>
        <div class="stat-card running">
            <div class="stat-value">"##,
    );
    reveal_strlit(
        r##"</div>
            <div class="stat-label">Running</div>
        </div>
        <div class="stat-card stopped">
            <div class="stat-value">"##,
    );
    reveal_strlit(
        r##"</div>
            <div class="stat-label">Stopped</div>
        </div>
        <div class="stat-card errored">
            <div class="stat-value">"##,
    );
    reveal_strlit(
        r##"</div>
            <div class="stat-label">Errored</div>
        </div>"##,
    );
    assert(PAGE_9@.subrange(47, 52) =~= "Total"@);
    assert(PAGE_10@.subrange(47, 54) =~= "Running"@);
    assert(PAGE_11@.subrange(47, 54) =~= "Stopped"@);
    assert(PAGE_12@.subrange(47, 54) =~= "Errored"@);
    assert(CARDS_1@.subrange(43, 48) =~= "Total"@);
    assert(CARDS_2@.subrange(43, 50) =~= "Running"@);
    assert(CARDS_3@.subrange(43, 50) =~= "Stopped"@);
    assert(CARDS_4@.subrange(43, 50) =~= "Errored"@);
}

/// The row of a daemon that is not known shows its name, leads to its page, and
/// starts it: every address in it is that of the daemon, and what the start
/// answers takes the place of this row.
pub proof fn law_available_rows_are_about_their_daemon(bp: Seq<char>, t: NameTexts)
    ensures
        holds(available_row_of(bp, t), ROW_0@ + t.safe_id@ + ROW_1@),
        holds(available_row_of(bp, t), ROW_1@ + bp + ROW_2@ + t.url_id@ + ROW_3@),
        holds(available_row_of(bp, t), ROW_3@ + bp + ROW_2@ + t.url_id@ + ROW_4@),
        holds(available_row_of(bp, t), ROW_4@ + t.display_html@ + ROW_5@),
        holds(available_row_of(bp, t), ROW_5@ + bp + ROW_2@ + t.url_id@ + ROW_6@),
        holds(available_row_of(bp, t), ROW_6@ + t.safe_id@ + ROW_7@),
{
    let t0 = ROW_0@;
    let t1 = t0 + t.safe_id@;
    let t2 = t1 + ROW_1@;
    let t3 = t2 + bp;
    let t4 = t3 + ROW_2@;
    let t5 = t4 + t.url_id@;
    let t6 = t5 + ROW_3@;
    let t7 = t6 + bp;
    let t8 = t7 + ROW_2@;
    let t9 = t8 + t.url_id@;
    let t10 = t9 + ROW_4@;
    let t11 = t10 + t.display_html@;
    let t12 = t11 + ROW_5@;
    let t13 = t12 + bp;
    let t14 = t13 + ROW_2@;
    let t15 = t14 + t.url_id@;
    let t16 = t15 + ROW_6@;
    let t17 = t16 + t.safe_id@;
    let t18 = t17 + ROW_7@;
    assert(available_row_of(bp, t) == t18);
    lemma_begins_itself(t18);
    lemma_begins(t17, ROW_7@, t18);
    lemma_begins(t16, t.safe_id@, t18);
    lemma_begins(t15, ROW_6@, t18);
    lemma_begins(t14, t.url_id@, t18);
    lemma_begins(t13, ROW_2@, t18);
    lemma_begins(t12, bp, t18);
    lemma_begins(t11, ROW_5@, t18);
    lemma_begins(t10, t.display_html@, t18);
    lemma_begins(t9, ROW_4@, t18);
    lemma_begins(t8, t.url_id@, t18);
    lemma_begins(t7, ROW_2@, t18);
    lemma_begins(t6, bp, t18);
    lemma_begins(t5, ROW_3@, t18);
    lemma_begins(t4, t.url_id@, t18);
    lemma_begins(t3, ROW_2@, t18);
    lemma_begins(t2, bp, t18);
    lemma_holds_first(ROW_0@, t.safe_id@, ROW_1@, t18);
    lemma_holds_five(t1, ROW_1@, bp, ROW_2@, t.url_id@, ROW_3@, t18);
    lemma_holds_five(t5, ROW_3@, bp, ROW_2@, t.url_id@, ROW_4@, t18);
    lemma_holds_three(t9, ROW_4@, t.display_html@, ROW_5@, t18);
    lemma_holds_five(t11, ROW_5@, bp, ROW_2@, t.url_id@, ROW_6@, t18);
    lemma_holds_three(t15, ROW_6@, t.safe_id@, ROW_7@, t18);
}

/// Where one more daemon is known, its status counts once, and the total grows
/// by one exactly if the daemon was neither known nor configured before. The
/// supervisor counts nowhere.
pub proof fn law_one_more_daemon_counts_once(
    before: StateFile,
    after: StateFile,
    d: Daemon,
    configured: Seq<IdView>,
)
    requires
        after.daemons@ == before.daemons@.push(d),
        after.supervisor@ == before.supervisor@,
    ensures
        ({
            let a = stats_of(before, configured);
            let b = stats_of(after, configured);
            let counts = d.id@ != before.supervisor@;
            &&& b.running == a.running + (if counts && d.status is Running {
                1nat
            } else {
                0nat
            })
            &&& b.stopped == a.stopped + (if counts && d.status is Stopped {
                1nat
            } else {
                0nat
            })
            &&& b.errored == a.errored + (if counts && d.status is Errored {
                1nat
            } else {
                0nat
            })
            &&& b.total == a.total + (if counts && !configured.contains(d.id@) && (forall|i: int|
                0 <= i < before.daemons@.len() ==> (#[trigger] before.daemons@[i]).id@ != d.id@) {
                1nat
            } else {
                0nat
            })
        }),
{
    let n = before.daemons@.len() as int;
    let all = after.daemons@;
    assert(all.take(n) =~= before.daemons@);
    assert(all.take(n + 1) =~= all);
    lists::lemma_count_step(all, |d: Daemon| after.is_user(d) && d.status is Running, n);
    lists::lemma_count_step(all, |d: Daemon| after.is_user(d) && d.status is Stopped, n);
    lists::lemma_count_step(all, |d: Daemon| after.is_user(d) && d.status is Errored, n);
    assert((|d: Daemon| after.is_user(d) && d.status is Running) =~= (|d: Daemon|
        before.is_user(d) && d.status is Running));
    assert((|d: Daemon| after.is_user(d) && d.status is Stopped) =~= (|d: Daemon|
        before.is_user(d) && d.status is Stopped));
    assert((|d: Daemon| after.is_user(d) && d.status is Errored) =~= (|d: Daemon|
        before.is_user(d) && d.status is Errored));
    let x = before.all_ids(configured);
    let y = after.all_ids(configured);
    lemma_all_ids_finite(before, configured);
    assert forall|id: IdView| y.contains(id) == (if before.is_user(d) {
        x.insert(d.id@).contains(id)
    } else {
        x.contains(id)
    }) by {
        if before.user_ids().contains(id) {
            let i = choose|i: int|
                0 <= i < n && before.is_user(#[trigger] before.daemons@[i]) && before.daemons@[i].id@
                    == id;
            assert(after.is_user(all[i]) && all[i].id@ == id);
        }
        if after.user_ids().contains(id) {
            let i = choose|i: int|
                0 <= i < all.len() && after.is_user(#[trigger] all[i]) && all[i].id@ == id;
            if i < n {
                assert(before.is_user(before.daemons@[i]));
            }
        }
        if before.is_user(d) && id == d.id@ {
            assert(after.is_user(all[n]) && all[n].id@ == id);
        }
    }
    if before.is_user(d) {
        assert(y =~= x.insert(d.id@));
        if forall|i: int| 0 <= i < n ==> (#[trigger] before.daemons@[i]).id@ != d.id@ {
            assert(!before.user_ids().contains(d.id@));
        } else {
            let i = choose|i: int| 0 <= i < n && (#[trigger] before.daemons@[i]).id@ == d.id@;
            assert(before.is_user(before.daemons@[i]));
            assert(before.user_ids().contains(d.id@));
        }
    } else {
        assert(y =~= x);
    }
}

/// Where no daemon is known, the total is that of the configured ones.
pub proof fn law_without_known_daemons_the_configured_count(
    state: StateFile,
    configured: Seq<IdView>,
)
    requires
        state.daemons@.len() == 0,
        configured.no_duplicates(),
    ensures
        stats_of(state, configured) == (StatsView {
            total: configured.len(),
            running: 0,
            stopped: 0,
            errored: 0,
        }),
{
    configured.unique_seq_to_set();
    assert(state.all_ids(configured) =~= configured.to_set());
}

proof fn lemma_all_ids_finite(state: StateFile, configured: Seq<IdView>)
    ensures
        state.all_ids(configured).finite(),
{
    let known = state.daemons@.map_values(|d: Daemon| d.id@);
    let bound = known.to_set().union(configured.to_set());
    assert forall|id: IdView| state.all_ids(configured).contains(id) implies bound.contains(id) by {
        if state.user_ids().contains(id) {
            let i = choose|i: int|
                0 <= i < state.daemons@.len() && state.is_user(#[trigger] state.daemons@[i])
                    && state.daemons@[i].id@ == id;
            assert(known[i] == id);
        }
    }
    vstd::set_lib::lemma_set_subset_finite(bound, state.all_ids(configured));
}

/// The rows stand in the order of the daemons, and each says of its own daemon
/// whether it is disabled.
pub proof fn law_rows_follow_their_daemons(state: StateFile)
    requires
        state.daemons@.len() <= usize::MAX,
    ensures
        forall|k: int|
            0 <= k < state.rows().len() ==> {
                let row = #[trigger] state.rows()[k];
                &&& row.place < state.daemons@.len()
                &&& state.daemons@[row.place as int].id@ != state.supervisor@
                &&& row.is_disabled <==> exists|i: int|
                    0 <= i < state.disabled@.len() && (#[trigger] state.disabled@[i])@
                        == state.daemons@[row.place as int].id@
            },
        forall|j: int, k: int|
            0 <= j < k < state.rows().len() ==> (#[trigger] state.rows()[j]).place < (
            #[trigger] state.rows()[k]).place,
        state.rows().len() == state.daemons@.filter(
            |d: Daemon| d.id@ != state.supervisor@,
        ).len(),
{
    let n = state.daemons@.len() as int;
    lemma_rows_follow(state, n);
    assert(state.daemons@.take(n) =~= state.daemons@);
}

proof fn lemma_rows_follow(state: StateFile, n: int)
    requires
        0 <= n <= state.daemons@.len(),
        n <= usize::MAX,
    ensures
        forall|k: int|
            0 <= k < state.rows_among(n).len() ==> {
                let row = #[trigger] state.rows_among(n)[k];
                &&& row.place < n
                &&& state.daemons@[row.place as int].id@ != state.supervisor@
                &&& row.is_disabled <==> exists|i: int|
                    0 <= i < state.disabled@.len() && (#[trigger] state.disabled@[i])@
                        == state.daemons@[row.place as int].id@
            },
        forall|j: int, k: int|
            0 <= j < k < state.rows_among(n).len() ==> (#[trigger] state.rows_among(n)[j]).place < (
            #[trigger] state.rows_among(n)[k]).place,
        state.rows_among(n).len() == state.daemons@.take(n).filter(
            |d: Daemon| d.id@ != state.supervisor@,
        ).len(),
    decreases n,
{
    reveal(Seq::filter);
    if n > 0 {
        lemma_rows_follow(state, n - 1);
        let all = state.rows_among(n);
        let rest = state.rows_among(n - 1);
        let d = state.daemons@[n - 1];
        let off = daemon::id_views(state.disabled@);
        assert(state.daemons@.take(n).drop_last() =~= state.daemons@.take(n - 1));
        assert(off.contains(d.id@) <==> exists|i: int|
            0 <= i < state.disabled@.len() && (#[trigger] state.disabled@[i])@ == d.id@) by {
            if off.contains(d.id@) {
                let i = choose|i: int| 0 <= i < off.len() && off[i] == d.id@;
                assert(state.disabled@[i]@ == d.id@);
            }
            if exists|i: int|
                0 <= i < state.disabled@.len() && (#[trigger] state.disabled@[i])@ == d.id@ {
                let i = choose|i: int|
                    0 <= i < state.disabled@.len() && (#[trigger] state.disabled@[i])@ == d.id@;
                assert(off[i] == d.id@);
            }
        }
        assert forall|k: int| 0 <= k < all.len() implies {
            let row = #[trigger] all[k];
            &&& row.place < n
            &&& state.daemons@[row.place as int].id@ != state.supervisor@
            &&& row.is_disabled <==> exists|i: int|
                0 <= i < state.disabled@.len() && (#[trigger] state.disabled@[i])@
                    == state.daemons@[row.place as int].id@
        } by {
            if k < rest.len() {
                assert(all[k] == rest[k]);
            }
        }
        assert forall|j: int, k: int| 0 <= j < k < all.len() implies (#[trigger] all[j]).place < (
        #[trigger] all[k]).place by {
            assert(all[j] == rest[j]);
            if k < rest.len() {
                assert(all[k] == rest[k]);
            }
        }
    }
}

/// The daemons that have a row without being known: the configured ones of
/// which the supervisor knows nothing, in order.
pub proof fn law_available_means_configured_and_not_known(
    state: StateFile,
    configured: Seq<IdView>,
    id: IdView,
)
    ensures
        state.unknown(configured).contains(id) <==> configured.contains(id) && forall|i: int|
            0 <= i < state.daemons@.len() ==> (#[trigger] state.daemons@[i]).id@ != id,
        state.daemons@.len() == 0 ==> state.unknown(configured) == configured,
        configured.no_duplicates() ==> state.unknown(configured).no_duplicates(),
{
    let keep = |d: IdView| !state.knows(d);
    lists::lemma_filter_members(configured, keep, id);
    if state.daemons@.len() == 0 {
        lists::lemma_filter_all(configured, keep);
    }
    if configured.no_duplicates() {
        lists::lemma_filter_distinct(configured, keep);
    }
}

/// The rows of the table stand one behind the other with nothing between them.
pub proof fn law_rows_stand_one_behind_the_other(a: Seq<Seq<char>>, b: Seq<Seq<char>>)
    ensures
        concatenated(a + b) == concatenated(a) + concatenated(b),
        a.len() == 1 ==> concatenated(a) == a[0],
        a.len() == 0 ==> concatenated(a).len() == 0,
        concatenated(a).len() > 0 ==> table_body(a) == concatenated(a),
        concatenated(a).len() == 0 ==> table_body(a) == EMPTY_ROW@,
    decreases b.len(),
{
    if b.len() > 0 {
        law_rows_stand_one_behind_the_other(a, b.drop_last());
        assert((a + b).drop_last() =~= a + b.drop_last());
        assert((a + b).last() == b.last());
        assert(concatenated(a + b) =~= concatenated(a) + concatenated(b));
    } else {
        assert(a + b =~= a);
        assert(concatenated(a) + concatenated(b) =~= concatenated(a));
    }
    if a.len() == 1 {
        assert(concatenated(a.drop_last()).len() == 0);
        assert(a.last() == a[0]);
        assert(concatenated(a) =~= a[0]);
    }
}

/// The page, the cards and a row hold nothing besides their pieces and what
/// stands between them.
pub proof fn law_nothing_else_is_on_the_page(
    bp: Seq<char>,
    s: StatsView,
    rows: Seq<char>,
    t: NameTexts,
)
    ensures
        page_of(bp, s, rows).len() == PAGE_0@.len() + PAGE_1@.len() + PAGE_2@.len() + PAGE_3@.len()
            + PAGE_4@.len() + PAGE_5@.len() + PAGE_6@.len() + PAGE_7@.len() + PAGE_8@.len()
            + PAGE_9@.len() + PAGE_10@.len() + PAGE_11@.len() + PAGE_12@.len() + PAGE_13@.len()
            + PAGE_14@.len() + 9 * bp.len() + text::decimal(s.total).len() + text::decimal(
            s.running,
        ).len() + text::decimal(s.stopped).len() + text::decimal(s.errored).len() + rows.len(),
        cards(s).len() == CARDS_0@.len() + CARDS_1@.len() + CARDS_2@.len() + CARDS_3@.len()
            + CARDS_4@.len() + text::decimal(s.total).len() + text::decimal(s.running).len()
            + text::decimal(s.stopped).len() + text::decimal(s.errored).len(),
        available_row_of(bp, t).len() == ROW_0@.len() + ROW_1@.len() + 3 * ROW_2@.len()
            + ROW_3@.len() + ROW_4@.len() + ROW_5@.len() + ROW_6@.len() + ROW_7@.len() + 3
            * bp.len() + 3 * t.url_id@.len() + 2 * t.safe_id@.len() + t.display_html@.len(),
{
}

/// Each daemon that is configured but not known has the row of its own name, in
/// order.
pub proof fn law_available_rows_are_in_order(bp: Seq<char>, names: Seq<NameTexts>, i: int)
    ensures
        available_rows(bp, names).len() == names.len(),
        0 <= i < names.len() ==> available_rows(bp, names)[i] == available_row_of(bp, names[i]),
{
}

} // verus!
