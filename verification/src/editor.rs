//! Editing a daemon's section in a form.
use vstd::prelude::*;

use crate::config::{
    clone_auto, clone_numbers, env_from, env_is_empty, env_pairs, ConfigView, CronRetrigger,
    CronView, PitchforkTomlCron, PitchforkTomlDaemon, ReadyHttp, ReadyHttpView, Retry,
};
use crate::config;
use crate::daemon::{DaemonId, IdView};
use crate::daemon;
use crate::form::{FieldView, FormField, FormFieldValue, ValueView};
use crate::form;
use crate::lists;
use crate::text;
use crate::text::{
    char_count, chars_of, clone_opt, clone_strings, cut_text, insert_char, is_alphanumeric,
    remove_char, same_text, starts_with, trim,
};

verus! {

// ---------------------------------------------------------------------------
// State
// ---------------------------------------------------------------------------

/// Whether a daemon is added or changed.
#[derive(Debug, Clone, PartialEq)]
pub enum EditMode {
    Create,
    Edit { original_id: String },
}

#[verifier::ext_equal]
pub enum ModeView {
    Create,
    Edit { original_id: Seq<char> },
}

impl View for EditMode {
    type V = ModeView;

    open spec fn view(&self) -> ModeView {
        match self {
            EditMode::Create => ModeView::Create,
            EditMode::Edit { original_id } => ModeView::Edit { original_id: original_id@ },
        }
    }
}

/// The form for one daemon.
#[derive(Debug, Clone)]
pub struct EditorState {
    pub mode: EditMode,
    pub daemon_id: String,
    pub daemon_id_editing: bool,
    pub daemon_id_cursor: usize,
    pub daemon_id_error: Option<String>,
    pub fields: Vec<FormField>,
    pub focused_field: usize,
    /// The file that holds the section, or will.
    pub config_path: String,
    pub unsaved_changes: bool,
    pub scroll_offset: usize,
    /// The readiness command, which has no field in the form.
    pub preserved_ready_cmd: Option<String>,
    /// The status codes of the readiness address, which have no field in the form.
    pub preserved_ready_http_status: Option<Vec<u16>>,
}

#[verifier::ext_equal]
pub struct EditorView {
    pub mode: ModeView,
    pub daemon_id: Seq<char>,
    pub daemon_id_editing: bool,
    pub daemon_id_cursor: usize,
    pub daemon_id_error: Option<Seq<char>>,
    pub fields: Seq<FieldView>,
    pub focused_field: usize,
    pub config_path: Seq<char>,
    pub unsaved_changes: bool,
    pub scroll_offset: usize,
    pub preserved_ready_cmd: Option<Seq<char>>,
    pub preserved_ready_http_status: Option<Seq<u16>>,
}

pub open spec fn opt_numbers(v: Option<Vec<u16>>) -> Option<Seq<u16>> {
    match v {
        Some(v) => Some(v@),
        None => None,
    }
}

impl View for EditorState {
    type V = EditorView;

    open spec fn view(&self) -> EditorView {
        EditorView {
            mode: self.mode@,
            daemon_id: self.daemon_id@,
            daemon_id_editing: self.daemon_id_editing,
            daemon_id_cursor: self.daemon_id_cursor,
            daemon_id_error: text::opt_view(self.daemon_id_error),
            fields: form::field_views(self.fields@),
            focused_field: self.focused_field,
            config_path: self.config_path@,
            unsaved_changes: self.unsaved_changes,
            scroll_offset: self.scroll_offset,
            preserved_ready_cmd: text::opt_view(self.preserved_ready_cmd),
            preserved_ready_http_status: opt_numbers(self.preserved_ready_http_status),
        }
    }
}

// ---------------------------------------------------------------------------
// Opening the form
// ---------------------------------------------------------------------------

/// What the environment field shows of a variable.
pub open spec fn env_entry(pair: (Seq<char>, Seq<char>)) -> Seq<char> {
    pair.0 + "="@ + pair.1
}

/// The form for a daemon's section: one field after the other, each with what
/// the section says.
pub open spec fn form_of(c: ConfigView) -> Seq<FieldView> {
    seq![
        form::fresh_field(
            "run"@,
            "Run Command"@,
            "Command to execute. Prepend 'exec' to avoid shell overhead."@,
            true,
            ValueView::Text(c.run),
        ),
        form::fresh_field(
            "dir"@,
            "Working Directory"@,
            "Working directory for the daemon. Relative to pitchfork.toml location."@,
            false,
            ValueView::OptionalText(c.dir),
        ),
        form::fresh_field(
            "env"@,
            "Environment Variables"@,
            "Comma-separated KEY=VALUE pairs (e.g., NODE_ENV=dev, PORT=3000)."@,
            false,
            ValueView::StringList(
                match c.env {
                    Some(env) => env.map_values(|p: (Seq<char>, Seq<char>)| env_entry(p)),
                    None => Seq::empty(),
                },
            ),
        ),
        form::fresh_field(
            "auto"@,
            "Auto Behavior"@,
            "Auto start/stop based on directory hooks."@,
            false,
            ValueView::AutoBehavior(c.auto),
        ),
        form::fresh_field(
            "retry"@,
            "Retry Count"@,
            "Number of retry attempts on failure (0 = no retries)."@,
            false,
            ValueView::Number(c.retry.0),
        ),
        form::fresh_field(
            "ready_delay"@,
            "Ready Delay (ms)"@,
            "Milliseconds to wait before considering daemon ready."@,
            false,
            ValueView::OptionalNumber(c.ready_delay),
        ),
        form::fresh_field(
            "ready_output"@,
            "Ready Output Pattern"@,
            "Regex pattern in ANSI-stripped stdout/stderr indicating readiness."@,
            false,
            ValueView::OptionalText(c.ready_output),
        ),
        form::fresh_field(
            "ready_http"@,
            "Ready HTTP URL"@,
            "HTTP URL to poll for readiness (expects 2xx)."@,
            false,
            ValueView::OptionalText(
                match c.ready_http {
                    Some(h) => Some(h.url),
                    None => None,
                },
            ),
        ),
        form::fresh_field(
            "ready_port"@,
            "Ready Port"@,
            "TCP port to check for readiness (1-65535)."@,
            false,
            ValueView::OptionalPort(c.ready_port),
        ),
        form::fresh_field(
            "boot_start"@,
            "Start on Boot"@,
            "Automatically start this daemon on system boot."@,
            false,
            ValueView::OptionalBoolean(c.boot_start),
        ),
        form::fresh_field(
            "depends"@,
            "Dependencies"@,
            "Comma-separated daemon names that must start first."@,
            false,
            ValueView::StringList(c.depends.map_values(|id: IdView| id.qualified())),
        ),
        form::fresh_field(
            "watch"@,
            "Watch Files"@,
            "Comma-separated glob patterns to watch for auto-restart."@,
            false,
            ValueView::StringList(c.watch),
        ),
        form::fresh_field(
            "cron_schedule"@,
            "Cron Schedule"@,
            "Cron expression (e.g., '*/5 * * * *' for every 5 minutes)."@,
            false,
            ValueView::OptionalText(
                match c.cron {
                    Some(cron) => Some(cron.schedule),
                    None => None,
                },
            ),
        ),
        form::fresh_field(
            "cron_retrigger"@,
            "Cron Retrigger"@,
            "Behavior when cron triggers while previous run is active."@,
            false,
            ValueView::Retrigger(
                match c.cron {
                    Some(cron) => cron.retrigger,
                    None => CronRetrigger::Finish,
                },
            ),
        ),
    ]
}

/// The editor as it opens on a form.
pub open spec fn opened(
    mode: ModeView,
    daemon_id: Seq<char>,
    daemon_id_editing: bool,
    c: ConfigView,
    config_path: Seq<char>,
) -> EditorView {
    EditorView {
        mode,
        daemon_id,
        daemon_id_editing,
        daemon_id_cursor: 0,
        daemon_id_error: None,
        fields: form_of(c),
        focused_field: 0,
        config_path,
        unsaved_changes: false,
        scroll_offset: 0,
        preserved_ready_cmd: c.ready_cmd,
        preserved_ready_http_status: match c.ready_http {
            Some(h) => if h.status.len() > 0 {
                Some(h.status)
            } else {
                None
            },
            None => None,
        },
    }
}

impl EditorState {
    /// The fields of a form that says nothing.
    pub fn default_fields() -> (r: Vec<FormField>)
        ensures
            form::field_views(r@) == form_of(config::empty_config()),
    {
        let fields = vec![
            FormField::text(
                "run",
                "Run Command",
                "Command to execute. Prepend 'exec' to avoid shell overhead.",
                true,
            ),
            FormField::optional_text(
                "dir",
                "Working Directory",
                "Working directory for the daemon. Relative to pitchfork.toml location.",
            ),
            FormField::string_list(
                "env",
                "Environment Variables",
                "Comma-separated KEY=VALUE pairs (e.g., NODE_ENV=dev, PORT=3000).",
            ),
            FormField::auto_behavior(
                "auto",
                "Auto Behavior",
                "Auto start/stop based on directory hooks.",
            ),
            FormField::number(
                "retry",
                "Retry Count",
                "Number of retry attempts on failure (0 = no retries).",
                0,
            ),
            FormField::optional_number(
                "ready_delay",
                "Ready Delay (ms)",
                "Milliseconds to wait before considering daemon ready.",
            ),
            FormField::optional_text(
                "ready_output",
                "Ready Output Pattern",
                "Regex pattern in ANSI-stripped stdout/stderr indicating readiness.",
            ),
            FormField::optional_text(
                "ready_http",
                "Ready HTTP URL",
                "HTTP URL to poll for readiness (expects 2xx).",
            ),
            FormField::optional_port(
                "ready_port",
                "Ready Port",
                "TCP port to check for readiness (1-65535).",
            ),
            FormField::optional_bool(
                "boot_start",
                "Start on Boot",
                "Automatically start this daemon on system boot.",
            ),
            FormField::string_list(
                "depends",
                "Dependencies",
                "Comma-separated daemon names that must start first.",
            ),
            FormField::string_list(
                "watch",
                "Watch Files",
                "Comma-separated glob patterns to watch for auto-restart.",
            ),
            FormField::optional_text(
                "cron_schedule",
                "Cron Schedule",
                "Cron expression (e.g., '*/5 * * * *' for every 5 minutes).",
            ),
            FormField::retrigger(
                "cron_retrigger",
                "Cron Retrigger",
                "Behavior when cron triggers while previous run is active.",
            ),
        ];
        proof {
            let e = config::empty_config();
            assert(e.depends.map_values(|id: IdView| id.qualified()) =~= Seq::<Seq<char>>::empty());
            assert(form::field_views(fields@) =~= form_of(e));
        }
        fields
    }

    /// The fields of the form for a section.
    pub fn fields_from_config(config: &PitchforkTomlDaemon) -> (r: Vec<FormField>)
        ensures
            form::field_views(r@) == form_of(config@),
    {
        let mut fields = EditorState::default_fields();
        let ghost before = form::field_views(fields@);
        proof {
            assert(before.len() == 14);
            assert forall|i: int| 0 <= i < 14 implies (#[trigger] fields@[i])@ == before[i] by {}
        }
        fields[0].value = FormFieldValue::Text(config.run.clone());
        fields[1].value = FormFieldValue::OptionalText(clone_opt(&config.dir));
        fields[2].value = FormFieldValue::StringList(env_entries_of(&config.env));
        fields[3].value = FormFieldValue::AutoBehavior(clone_auto(&config.auto));
        fields[4].value = FormFieldValue::Number(config.retry.count());
        fields[5].value = FormFieldValue::OptionalNumber(config.ready_delay);
        fields[6].value = FormFieldValue::OptionalText(clone_opt(&config.ready_output));
        fields[7].value =
        FormFieldValue::OptionalText(
            match &config.ready_http {
                Some(h) => Some(h.url.clone()),
                None => None,
            },
        );
        fields[8].value = FormFieldValue::OptionalPort(config.ready_port);
        fields[9].value = FormFieldValue::OptionalBoolean(config.boot_start);
        fields[10].value = FormFieldValue::StringList(qualified_names(&config.depends));
        fields[11].value = FormFieldValue::StringList(clone_strings(&config.watch));
        fields[12].value =
        FormFieldValue::OptionalText(
            match &config.cron {
                Some(cron) => Some(cron.schedule.clone()),
                None => None,
            },
        );
        fields[13].value =
        FormFieldValue::Retrigger(
            match &config.cron {
                Some(cron) => cron.retrigger,
                None => CronRetrigger::Finish,
            },
        );
        assert(form::field_views(fields@) =~= form_of(config@));
        fields
    }

    /// The editor for a new daemon: the name is typed first.
    pub fn new_create(config_path: String) -> (r: Self)
        ensures
            r@ == opened(
                ModeView::Create,
                Seq::empty(),
                true,
                config::empty_config(),
                config_path@,
            ),
    {
        let r = EditorState {
            mode: EditMode::Create,
            daemon_id: String::new(),
            daemon_id_editing: true,
            daemon_id_cursor: 0,
            daemon_id_error: None,
            fields: EditorState::default_fields(),
            focused_field: 0,
            config_path,
            unsaved_changes: false,
            scroll_offset: 0,
            preserved_ready_cmd: None,
            preserved_ready_http_status: None,
        };
        assert(r@.daemon_id =~= Seq::<char>::empty());
        r
    }

    /// The editor for a daemon that is there.
    pub fn new_edit(daemon_id: String, config: &PitchforkTomlDaemon, config_path: String) -> (r:
        Self)
        ensures
            r@ == opened(
                (ModeView::Edit { original_id: daemon_id@ }),
                daemon_id@,
                false,
                config@,
                config_path@,
            ),
    {
        EditorState {
            mode: EditMode::Edit { original_id: daemon_id.clone() },
            daemon_id,
            daemon_id_editing: false,
            daemon_id_cursor: 0,
            daemon_id_error: None,
            fields: EditorState::fields_from_config(config),
            focused_field: 0,
            config_path,
            unsaved_changes: false,
            scroll_offset: 0,
            preserved_ready_cmd: clone_opt(&config.ready_cmd),
            preserved_ready_http_status: match &config.ready_http {
                Some(h) => if h.status.len() > 0 {
                    Some(clone_numbers(&h.status))
                } else {
                    None
                },
                None => None,
            },
        }
    }
}

fn env_entries_of(env: &Option<config::EnvMap>) -> (r: Vec<String>)
    ensures
        text::views(r@) == (match config::opt_env(*env) {
            Some(env) => env.map_values(|p: (Seq<char>, Seq<char>)| env_entry(p)),
            None => Seq::empty(),
        }),
{
    let mut out: Vec<String> = Vec::new();
    match env {
        Some(m) => {
            let pairs = env_pairs(m);
            let ghost all = config::env_entries(*m).map_values(
                |p: (Seq<char>, Seq<char>)| env_entry(p),
            );
            let mut i: usize = 0;
            while i < pairs.len()
                invariant
                    i <= pairs@.len(),
                    all == config::pair_views(pairs@).map_values(
                        |p: (Seq<char>, Seq<char>)| env_entry(p),
                    ),
                    text::views(out@) == all.take(i as int),
                decreases pairs@.len() - i,
            {
                let pair = &pairs[i];
                let mut entry = pair.0.clone();
                entry.append("=");
                entry.append(pair.1.as_str());
                proof {
                    assert(entry@ == all[i as int]);
                    assert(text::views(out@.push(entry)) =~= text::views(out@).push(entry@));
                    assert(all.take(i + 1) =~= all.take(i as int).push(entry@));
                }
                out.push(entry);
                i += 1;
            }
            assert(all.take(i as int) =~= all);
        },
        None => {
            assert(text::views(out@) =~= Seq::<Seq<char>>::empty());
        },
    }
    out
}

fn qualified_names(ids: &Vec<DaemonId>) -> (r: Vec<String>)
    ensures
        text::views(r@) == daemon::id_views(ids@).map_values(|id: IdView| id.qualified()),
{
    let mut out: Vec<String> = Vec::new();
    let ghost all = daemon::id_views(ids@).map_values(|id: IdView| id.qualified());
    let mut i: usize = 0;
    while i < ids.len()
        invariant
            i <= ids@.len(),
            all == daemon::id_views(ids@).map_values(|id: IdView| id.qualified()),
            text::views(out@) == all.take(i as int),
        decreases ids@.len() - i,
    {
        let name = ids[i].qualified();
        proof {
            assert(name@ == all[i as int]);
            assert(text::views(out@.push(name)) =~= text::views(out@).push(name@));
            assert(all.take(i + 1) =~= all.take(i as int).push(name@));
        }
        out.push(name);
        i += 1;
    }
    assert(all.take(i as int) =~= all);
    out
}

// ---------------------------------------------------------------------------
// From the form to a section
// ---------------------------------------------------------------------------

/// The variables that the entries of the environment field give: those with a
/// `=`, trimmed on both of its sides.
pub open spec fn typed_pairs(entries: Seq<Seq<char>>) -> Seq<(Seq<char>, Seq<char>)>
    decreases entries.len(),
{
    if entries.len() == 0 {
        Seq::empty()
    } else {
        let rest = typed_pairs(entries.drop_last());
        match text::cut(entries.last(), '=') {
            Some((key, value)) => rest.push((text::trimmed(key), text::trimmed(value))),
            None => rest,
        }
    }
}

/// The environment that the entries give; none where no entry gives a variable.
pub open spec fn typed_env(entries: Seq<Seq<char>>) -> Option<Seq<(Seq<char>, Seq<char>)>> {
    let env = config::env_of(typed_pairs(entries));
    if env.len() == 0 {
        None
    } else {
        Some(env)
    }
}

/// What a table of names stands for.
pub open spec fn name_views(known: Seq<(String, DaemonId)>) -> Seq<(Seq<char>, IdView)> {
    known.map_values(|k: (String, DaemonId)| (k.0@, k.1@))
}

/// The daemons that the names stand for, without the names that stand for none.
pub open spec fn named_ids(
    names: Seq<Seq<char>>,
    known: Seq<(Seq<char>, IdView)>,
) -> Seq<IdView>
    decreases names.len(),
{
    if names.len() == 0 {
        Seq::empty()
    } else {
        let rest = named_ids(names.drop_last(), known);
        match lists::lookup(known, names.last()) {
            Some(id) => rest.push(id),
            None => rest,
        }
    }
}

/// A section in the making.
#[verifier::ext_equal]
pub struct Draft {
    pub config: ConfigView,
    pub cron_schedule: Option<Seq<char>>,
    pub cron_retrigger: CronRetrigger,
}

impl Draft {
    /// The draft after a field was read: the part of the section that the
    /// field's name stands for, where the field holds a value of its kind.
    pub open spec fn with_field(
        self,
        f: FieldView,
        status: Seq<u16>,
        known: Seq<(Seq<char>, IdView)>,
    ) -> Draft {
        let c = self.config;
        match f.value {
            ValueView::Text(s) => if f.name == "run"@ {
                Draft { config: ConfigView { run: s, ..c }, ..self }
            } else {
                self
            },
            ValueView::OptionalText(s) => if f.name == "dir"@ {
                Draft { config: ConfigView { dir: s, ..c }, ..self }
            } else if f.name == "ready_output"@ {
                Draft { config: ConfigView { ready_output: s, ..c }, ..self }
            } else if f.name == "ready_http"@ {
                let ready_http = match s {
                    Some(url) => Some(ReadyHttpView { url, status }),
                    None => None,
                };
                Draft { config: ConfigView { ready_http, ..c }, ..self }
            } else if f.name == "cron_schedule"@ {
                Draft { cron_schedule: s, ..self }
            } else {
                self
            },
            ValueView::StringList(v) => if f.name == "env"@ {
                Draft { config: ConfigView { env: typed_env(v), ..c }, ..self }
            } else if f.name == "depends"@ {
                Draft { config: ConfigView { depends: named_ids(v, known), ..c }, ..self }
            } else if f.name == "watch"@ {
                Draft { config: ConfigView { watch: v, ..c }, ..self }
            } else {
                self
            },
            ValueView::AutoBehavior(v) => if f.name == "auto"@ {
                Draft { config: ConfigView { auto: v, ..c }, ..self }
            } else {
                self
            },
            ValueView::Number(n) => if f.name == "retry"@ {
                Draft { config: ConfigView { retry: Retry(n), ..c }, ..self }
            } else {
                self
            },
            ValueView::OptionalNumber(n) => if f.name == "ready_delay"@ {
                Draft { config: ConfigView { ready_delay: n, ..c }, ..self }
            } else {
                self
            },
            ValueView::OptionalPort(p) => if f.name == "ready_port"@ {
                Draft { config: ConfigView { ready_port: p, ..c }, ..self }
            } else {
                self
            },
            ValueView::OptionalBoolean(b) => if f.name == "boot_start"@ {
                Draft { config: ConfigView { boot_start: b, ..c }, ..self }
            } else {
                self
            },
            ValueView::Retrigger(r) => if f.name == "cron_retrigger"@ {
                Draft { cron_retrigger: r, ..self }
            } else {
                self
            },
            ValueView::Boolean(_) => self,
        }
    }

    /// The draft after the fields were read one after the other.
    pub open spec fn with_fields(
        self,
        fields: Seq<FieldView>,
        status: Seq<u16>,
        known: Seq<(Seq<char>, IdView)>,
    ) -> Draft
        decreases fields.len(),
    {
        if fields.len() == 0 {
            self
        } else {
            self.with_fields(fields.drop_last(), status, known).with_field(
                fields.last(),
                status,
                known,
            )
        }
    }

    /// The section that the draft makes: a schedule comes with its behaviour.
    pub open spec fn section(self) -> ConfigView {
        match self.cron_schedule {
            Some(schedule) => ConfigView {
                cron: Some(CronView { schedule, retrigger: self.cron_retrigger }),
                ..self.config
            },
            None => self.config,
        }
    }
}

impl EditorView {
    /// What is there before any field is read: what the form has no field for.
    pub open spec fn blank_draft(self) -> Draft {
        Draft {
            config: ConfigView {
                ready_cmd: self.preserved_ready_cmd,
                path: Some(self.config_path),
                ..config::empty_config()
            },
            cron_schedule: None,
            cron_retrigger: CronRetrigger::Finish,
        }
    }

    /// The status codes that the readiness address keeps.
    pub open spec fn kept_status(self) -> Seq<u16> {
        match self.preserved_ready_http_status {
            Some(status) => status,
            None => Seq::empty(),
        }
    }

    /// The section that the form gives, where the names stand for the daemons.
    pub open spec fn section(self, known: Seq<(Seq<char>, IdView)>) -> ConfigView {
        self.blank_draft().with_fields(self.fields, self.kept_status(), known).section()
    }
}

fn env_of_entries(entries: &Vec<String>) -> (r: Option<config::EnvMap>)
    ensures
        config::opt_env(r) == typed_env(text::views(entries@)),
{
    let ghost all = text::views(entries@);
    let mut pairs: Vec<(String, String)> = Vec::new();
    let mut i: usize = 0;
    proof {
        assert(config::pair_views(pairs@) =~= typed_pairs(all.take(0)));
    }
    while i < entries.len()
        invariant
            i <= entries@.len(),
            all == text::views(entries@),
            config::pair_views(pairs@) == typed_pairs(all.take(i as int)),
        decreases entries@.len() - i,
    {
        proof {
            assert(all.take(i + 1).drop_last() =~= all.take(i as int));
            assert(all.take(i + 1).last() == entries@[i as int]@);
        }
        match cut_text(entries[i].as_str(), '=') {
            Some(cut) => {
                let pair = (trim(cut.0.as_str()), trim(cut.1.as_str()));
                proof {
                    assert(config::pair_views(pairs@.push(pair)) =~= config::pair_views(
                        pairs@,
                    ).push((pair.0@, pair.1@)));
                }
                pairs.push(pair);
            },
            None => {},
        }
        i += 1;
    }
    assert(all.take(i as int) =~= all);
    let env = env_from(&pairs);
    if env_is_empty(&env) {
        None
    } else {
        Some(env)
    }
}

fn find_name(known: &Vec<(String, DaemonId)>, name: &str) -> (r: Option<DaemonId>)
    ensures
        match r {
            Some(id) => lists::lookup(name_views(known@), name@) == Some(id@),
            None => lists::lookup(name_views(known@), name@) is None,
        },
{
    let ghost all = name_views(known@);
    let mut i: usize = known.len();
    assert(all.take(i as int) =~= all);
    while i > 0
        invariant
            i <= known@.len(),
            all == name_views(known@),
            lists::lookup(all, name@) == lists::lookup(all.take(i as int), name@),
        decreases i,
    {
        i -= 1;
        proof {
            assert(all.take(i + 1).drop_last() =~= all.take(i as int));
        }
        if same_text(known[i].0.as_str(), name) {
            return Some(known[i].1.clone());
        }
    }
    None
}

fn ids_of_names(names: &Vec<String>, known: &Vec<(String, DaemonId)>) -> (r: Vec<DaemonId>)
    ensures
        daemon::id_views(r@) == named_ids(text::views(names@), name_views(known@)),
{
    let ghost all = text::views(names@);
    let mut out: Vec<DaemonId> = Vec::new();
    let mut i: usize = 0;
    assert(daemon::id_views(out@) =~= named_ids(all.take(0), name_views(known@)));
    while i < names.len()
        invariant
            i <= names@.len(),
            all == text::views(names@),
            daemon::id_views(out@) == named_ids(all.take(i as int), name_views(known@)),
        decreases names@.len() - i,
    {
        proof {
            assert(all.take(i + 1).drop_last() =~= all.take(i as int));
            assert(all.take(i + 1).last() == names@[i as int]@);
        }
        match find_name(known, names[i].as_str()) {
            Some(id) => {
                proof {
                    assert(daemon::id_views(out@.push(id)) =~= daemon::id_views(out@).push(id@));
                }
                out.push(id);
            },
            None => {},
        }
        i += 1;
    }
    assert(all.take(i as int) =~= all);
    out
}

impl EditorState {
    /// The section that the form gives. `known` says which daemon each name
    /// stands for; a dependency on a name that stands for none is dropped.
    pub fn to_daemon_config(&self, known: &Vec<(String, DaemonId)>) -> (r: PitchforkTomlDaemon)
        ensures
            r@ == self@.section(name_views(known@)),
    {
        let mut config = PitchforkTomlDaemon::default();
        config.ready_cmd = clone_opt(&self.preserved_ready_cmd);
        config.path = Some(self.config_path.clone());
        let mut cron_schedule: Option<String> = None;
        let mut cron_retrigger = CronRetrigger::Finish;
        let ghost fields = self@.fields;
        let ghost status = self@.kept_status();
        let ghost names = name_views(known@);
        let ghost mut draft = self@.blank_draft();
        proof {
            assert(draft == self@.blank_draft().with_fields(fields.take(0), status, names));
        }
        let mut i: usize = 0;
        while i < self.fields.len()
            invariant
                i <= self.fields@.len(),
                fields == self@.fields,
                status == self@.kept_status(),
                names == name_views(known@),
                draft == self@.blank_draft().with_fields(fields.take(i as int), status, names),
                draft.config == config@,
                draft.cron_schedule == text::opt_view(cron_schedule),
                draft.cron_retrigger == cron_retrigger,
            decreases self.fields@.len() - i,
        {
            let field = &self.fields[i];
            let ghost next = draft.with_field(field@, status, names);
            proof {
                assert(fields.take(i + 1).drop_last() =~= fields.take(i as int));
                assert(fields.take(i + 1).last() == field@);
            }
            match &field.value {
                FormFieldValue::Text(s) => {
                    if same_text(field.name, "run") {
                        config.run = s.clone();
                    }
                },
                FormFieldValue::OptionalText(s) => {
                    if same_text(field.name, "dir") {
                        config.dir = clone_opt(s);
                    } else if same_text(field.name, "ready_output") {
                        config.ready_output = clone_opt(s);
                    } else if same_text(field.name, "ready_http") {
                        config.ready_http =
                        match s {
                            Some(url) => Some(
                                ReadyHttp {
                                    url: url.clone(),
                                    status: match &self.preserved_ready_http_status {
                                        Some(status) => clone_numbers(status),
                                        None => Vec::new(),
                                    },
                                },
                            ),
                            None => None,
                        };
                        assert(config.ready_http is Some ==> config.ready_http->0@.status
                            =~= status);
                    } else if same_text(field.name, "cron_schedule") {
                        cron_schedule = clone_opt(s);
                    }
                },
                FormFieldValue::StringList(v) => {
                    if same_text(field.name, "env") {
                        config.env = env_of_entries(v);
                    } else if same_text(field.name, "depends") {
                        config.depends = ids_of_names(v, known);
                    } else if same_text(field.name, "watch") {
                        config.watch = clone_strings(v);
                    }
                },
                FormFieldValue::AutoBehavior(v) => {
                    if same_text(field.name, "auto") {
                        config.auto = clone_auto(v);
                    }
                },
                FormFieldValue::Number(n) => {
                    if same_text(field.name, "retry") {
                        config.retry = Retry(*n);
                    }
                },
                FormFieldValue::OptionalNumber(n) => {
                    if same_text(field.name, "ready_delay") {
                        config.ready_delay = *n;
                    }
                },
                FormFieldValue::OptionalPort(p) => {
                    if same_text(field.name, "ready_port") {
                        config.ready_port = *p;
                    }
                },
                FormFieldValue::OptionalBoolean(b) => {
                    if same_text(field.name, "boot_start") {
                        config.boot_start = *b;
                    }
                },
                FormFieldValue::Retrigger(r) => {
                    if same_text(field.name, "cron_retrigger") {
                        cron_retrigger = *r;
                    }
                },
                FormFieldValue::Boolean(_) => {},
            }
            proof {
                assert(next.config =~= config@);
                draft = next;
            }
            i += 1;
        }
        assert(fields.take(i as int) =~= fields);
        match cron_schedule {
            Some(schedule) => {
                config.cron = Some(PitchforkTomlCron { schedule, retrigger: cron_retrigger });
            },
            None => {},
        }
        config
    }
}

// ---------------------------------------------------------------------------
// Moving about and typing
// ---------------------------------------------------------------------------

impl EditorView {
    pub open spec fn has_focus(self) -> bool {
        self.focused_field < self.fields.len()
    }

    /// The field in focus.
    pub open spec fn focused(self) -> FieldView {
        self.fields[self.focused_field as int]
    }

    pub open spec fn with_focused(self, f: FieldView) -> EditorView {
        EditorView { fields: self.fields.update(self.focused_field as int, f), ..self }
    }

    /// The editor after typing into the field in focus has ended.
    pub open spec fn field_left(self) -> EditorView {
        if self.has_focus() {
            self.with_focused(FieldView { editing: false, ..self.focused() })
        } else {
            self
        }
    }

    pub open spec fn next(self) -> EditorView {
        let left = self.field_left();
        if self.daemon_id_editing {
            EditorView { daemon_id_editing: false, ..left }
        } else if self.focused_field + 1 < self.fields.len() {
            EditorView { focused_field: (self.focused_field + 1) as usize, ..left }
        } else {
            left
        }
    }

    pub open spec fn prev(self) -> EditorView {
        let left = EditorView { daemon_id_editing: false, ..self.field_left() };
        if self.focused_field > 0 {
            EditorView { focused_field: (self.focused_field - 1) as usize, ..left }
        } else {
            left
        }
    }

    /// The editor after the field in focus was switched; one that is typed in
    /// is left alone.
    pub open spec fn toggled(self) -> EditorView {
        if self.has_focus() && !self.focused().value.editable() {
            let f = FieldView { value: self.focused().value.toggled(), ..self.focused() };
            EditorView { unsaved_changes: true, ..self.with_focused(f) }
        } else {
            self
        }
    }

    pub open spec fn editing_started(self) -> EditorView {
        if !self.has_focus() {
            self
        } else if self.focused().value.editable() {
            self.with_focused(
                FieldView {
                    editing: true,
                    cursor: self.focused().value.text().len() as usize,
                    ..self.focused()
                },
            )
        } else {
            self.toggled()
        }
    }

    pub open spec fn is_editing(self) -> bool {
        self.daemon_id_editing || (self.has_focus() && self.focused().editing)
    }

    /// Whether the field in focus is typed in.
    pub open spec fn types_in_field(self) -> bool {
        self.has_focus() && self.focused().editing
    }

    pub open spec fn pushed(self, c: char) -> EditorView {
        if self.daemon_id_editing {
            EditorView {
                daemon_id: with_char(self.daemon_id, self.daemon_id_cursor, c),
                daemon_id_cursor: (self.daemon_id_cursor + 1) as usize,
                unsaved_changes: true,
                ..self
            }
        } else if self.types_in_field() {
            let f = self.focused();
            let moved = FieldView { cursor: (f.cursor + 1) as usize, ..f };
            EditorView {
                unsaved_changes: true,
                ..self.with_focused(moved.with_text(with_char(f.value.text(), f.cursor, c)))
            }
        } else {
            self
        }
    }

    /// Whether a character of the name is taken back.
    pub open spec fn pops_name(self) -> bool {
        self.daemon_id_editing && self.daemon_id_cursor > 0
    }

    /// Whether a character of the field in focus is taken back.
    pub open spec fn pops_field(self) -> bool {
        !self.pops_name() && self.types_in_field() && self.focused().cursor > 0
    }

    pub open spec fn popped(self) -> EditorView {
        if self.pops_name() {
            EditorView {
                daemon_id: self.daemon_id.remove(self.daemon_id_cursor - 1),
                daemon_id_cursor: (self.daemon_id_cursor - 1) as usize,
                unsaved_changes: true,
                ..self
            }
        } else if self.pops_field() {
            let f = self.focused();
            let g = f.with_text(f.value.text().remove(f.cursor - 1));
            let cursor = if g.value is Number {
                g.value.text().len() as usize
            } else {
                (f.cursor - 1) as usize
            };
            EditorView { unsaved_changes: true, ..self.with_focused(FieldView { cursor, ..g }) }
        } else {
            self
        }
    }
}

/// A text with a character put in at the cursor, or at the end where the
/// cursor is behind it.
pub open spec fn with_char(s: Seq<char>, cursor: usize, c: char) -> Seq<char> {
    s.insert(text::first_chars(s, cursor as int).len() as int, c)
}

impl EditorState {
    /// Ends typing into the field in focus.
    fn leave_field(&mut self)
        ensures
            final(self)@ == old(self)@.field_left(),
    {
        if self.focused_field < self.fields.len() {
            let i = self.focused_field;
            self.fields[i].editing = false;
            assert(self@.fields =~= old(self)@.field_left().fields);
        }
    }

    /// Moves on to the next field; from the name to the field in focus.
    pub fn next_field(&mut self)
        requires
            old(self)@.daemon_id_editing || old(self)@.fields.len() > 0,
        ensures
            final(self)@ == old(self)@.next(),
    {
        self.leave_field();
        if self.daemon_id_editing {
            self.daemon_id_editing = false;
            return;
        }
        assert(self.fields@.len() == self@.fields.len());
        if self.focused_field < self.fields.len() - 1 {
            self.focused_field += 1;
        }
    }

    /// Moves back to the previous field.
    pub fn prev_field(&mut self)
        ensures
            final(self)@ == old(self)@.prev(),
    {
        self.leave_field();
        self.daemon_id_editing = false;
        if self.focused_field > 0 {
            self.focused_field -= 1;
        }
    }

    /// Switches the field in focus to its next value.
    pub fn toggle_current_field(&mut self)
        ensures
            final(self)@ == old(self)@.toggled(),
    {
        if self.focused_field < self.fields.len() {
            let i = self.focused_field;
            let next: Option<FormFieldValue> = match &self.fields[i].value {
                FormFieldValue::Boolean(b) => Some(FormFieldValue::Boolean(!*b)),
                FormFieldValue::OptionalBoolean(b) => Some(
                    FormFieldValue::OptionalBoolean(
                        match b {
                            None => Some(true),
                            Some(true) => Some(false),
                            Some(false) => None,
                        },
                    ),
                ),
                FormFieldValue::AutoBehavior(v) => {
                    let has_start = has_auto(v, config::PitchforkTomlAuto::Start);
                    let has_stop = has_auto(v, config::PitchforkTomlAuto::Stop);
                    let next = match (has_start, has_stop) {
                        (false, false) => vec![config::PitchforkTomlAuto::Start],
                        (true, false) => vec![config::PitchforkTomlAuto::Stop],
                        (false, true) => vec![
                            config::PitchforkTomlAuto::Start,
                            config::PitchforkTomlAuto::Stop,
                        ],
                        (true, true) => Vec::new(),
                    };
                    let value = FormFieldValue::AutoBehavior(next);
                    assert(value@ =~= self.fields@[i as int]@.value.toggled());
                    Some(value)
                },
                FormFieldValue::Retrigger(r) => Some(
                    FormFieldValue::Retrigger(
                        match r {
                            CronRetrigger::Finish => CronRetrigger::Always,
                            CronRetrigger::Always => CronRetrigger::Success,
                            CronRetrigger::Success => CronRetrigger::Fail,
                            CronRetrigger::Fail => CronRetrigger::Finish,
                        },
                    ),
                ),
                _ => None,
            };
            match next {
                Some(value) => {
                    self.fields[i].value = value;
                    self.unsaved_changes = true;
                    assert(self@.fields =~= old(self)@.toggled().fields);
                },
                None => {},
            }
        }
    }

    /// Starts typing into the field in focus, at its end, or switches it.
    pub fn start_editing(&mut self)
        ensures
            final(self)@ == old(self)@.editing_started(),
    {
        if self.focused_field < self.fields.len() {
            let i = self.focused_field;
            if self.fields[i].is_text_editable() {
                let end = char_count(self.fields[i].get_text().as_str());
                self.fields[i].editing = true;
                self.fields[i].cursor = end;
                assert(self@.fields =~= old(self)@.editing_started().fields);
            } else {
                self.toggle_current_field();
            }
        }
    }

    /// Ends all typing.
    pub fn stop_editing(&mut self)
        ensures
            final(self)@ == (EditorView { daemon_id_editing: false, ..old(self)@.field_left() }),
    {
        self.leave_field();
        self.daemon_id_editing = false;
    }

    pub fn is_editing(&self) -> (r: bool)
        ensures
            r == self@.is_editing(),
    {
        self.daemon_id_editing || (self.focused_field < self.fields.len()
            && self.fields[self.focused_field].editing)
    }

    /// Puts a character in at the cursor.
    pub fn text_push(&mut self, c: char)
        requires
            old(self)@.daemon_id_editing ==> old(self)@.daemon_id_cursor < usize::MAX,
            !old(self)@.daemon_id_editing && old(self)@.types_in_field()
                ==> old(self)@.focused().cursor < usize::MAX,
        ensures
            final(self)@ == old(self)@.pushed(c),
    {
        if self.daemon_id_editing {
            self.daemon_id = insert_char(self.daemon_id.as_str(), self.daemon_id_cursor, c);
            self.daemon_id_cursor += 1;
            self.unsaved_changes = true;
        } else if self.focused_field < self.fields.len() && self.fields[self.focused_field].editing {
            let i = self.focused_field;
            let cursor = self.fields[i].cursor;
            let text = insert_char(self.fields[i].get_text().as_str(), cursor, c);
            self.fields[i].cursor = cursor + 1;
            self.fields[i].set_text(text);
            self.unsaved_changes = true;
            assert(self@.fields =~= old(self)@.pushed(c).fields);
        }
    }

    /// Takes back the character before the cursor.
    pub fn text_pop(&mut self)
        requires
            old(self)@.pops_name() ==> old(self)@.daemon_id_cursor <= old(self)@.daemon_id.len(),
            old(self)@.pops_field() ==> old(self)@.focused().cursor
                <= old(self)@.focused().value.text().len(),
        ensures
            final(self)@ == old(self)@.popped(),
    {
        if self.daemon_id_editing && self.daemon_id_cursor > 0 {
            self.daemon_id_cursor -= 1;
            self.daemon_id = remove_char(self.daemon_id.as_str(), self.daemon_id_cursor);
            self.unsaved_changes = true;
        } else if self.focused_field < self.fields.len() && self.fields[self.focused_field].editing
            && self.fields[self.focused_field].cursor > 0 {
            let i = self.focused_field;
            let cursor = self.fields[i].cursor - 1;
            let text = remove_char(self.fields[i].get_text().as_str(), cursor);
            self.fields[i].cursor = cursor;
            self.fields[i].set_text(text);
            let number = matches!(&self.fields[i].value, FormFieldValue::Number(_));
            if number {
                let end = char_count(self.fields[i].get_text().as_str());
                self.fields[i].cursor = end;
            }
            self.unsaved_changes = true;
            assert(self@.fields =~= old(self)@.popped().fields);
        }
    }
}

fn has_auto(v: &Vec<config::PitchforkTomlAuto>, a: config::PitchforkTomlAuto) -> (r: bool)
    ensures
        r == v@.contains(a),
{
    let mut i: usize = 0;
    while i < v.len()
        invariant
            i <= v@.len(),
            forall|k: int| 0 <= k < i ==> v@[k] != a,
        decreases v@.len() - i,
    {
        if v[i] == a {
            return true;
        }
        i += 1;
    }
    false
}

// ---------------------------------------------------------------------------
// Checking the form
// ---------------------------------------------------------------------------

/// Whether a character may stand in a daemon's name.
pub open spec fn name_char(c: char) -> bool {
    text::alphanumeric(c) || c == '-' || c == '_'
}

/// What is wrong with a daemon's name.
pub open spec fn name_error(name: Seq<char>) -> Option<Seq<char>> {
    if name.len() == 0 {
        Some("Name is required"@)
    } else if exists|i: int| 0 <= i < name.len() && !name_char(#[trigger] name[i]) {
        Some("Only letters, digits, hyphens, and underscores allowed"@)
    } else {
        None
    }
}

/// Whether an ASCII character may stand in a daemon's name.
pub open spec fn ascii_name_char(c: char) -> bool {
    text::ascii_alphanumeric(c) || c == '-' || c == '_'
}

/// What is wrong with a daemon's name that is made of ASCII characters.
pub open spec fn ascii_name_error(name: Seq<char>) -> Option<Seq<char>> {
    if name.len() == 0 {
        Some("Name is required"@)
    } else if exists|i: int| 0 <= i < name.len() && !ascii_name_char(#[trigger] name[i]) {
        Some("Only letters, digits, hyphens, and underscores allowed"@)
    } else {
        None
    }
}

/// Whether all characters are ASCII characters.
pub open spec fn all_ascii(s: Seq<char>) -> bool {
    forall|i: int| 0 <= i < s.len() ==> (#[trigger] s[i] as u32) < 128
}

/// What is wrong with a field.
pub open spec fn field_error(f: FieldView) -> Option<Seq<char>> {
    match f.value {
        ValueView::Text(s) => if f.name == "run"@ && s.len() == 0 {
            Some("Required"@)
        } else {
            None
        },
        ValueView::OptionalPort(Some(p)) => if f.name == "ready_port"@ && p == 0 {
            Some("Port must be 1-65535"@)
        } else {
            None
        },
        ValueView::OptionalText(Some(url)) => if f.name == "ready_http"@ && !text::has_prefix(
            url,
            "http://"@,
        ) && !text::has_prefix(url, "https://"@) {
            Some("Must start with http:// or https://"@)
        } else {
            None
        },
        _ => None,
    }
}

impl EditorView {
    /// The editor with what is wrong marked.
    pub open spec fn checked(self) -> EditorView {
        EditorView {
            daemon_id_error: name_error(self.daemon_id),
            fields: self.fields.map_values(
                |f: FieldView| FieldView { error: field_error(f), ..f },
            ),
            ..self
        }
    }

    /// Whether nothing is wrong.
    pub open spec fn valid(self) -> bool {
        name_error(self.daemon_id) is None && forall|i: int|
            0 <= i < self.fields.len() ==> field_error(#[trigger] self.fields[i]) is None
    }
}

fn check_field(f: &FormField) -> (r: Option<String>)
    ensures
        text::opt_view(r) == field_error(f@),
{
    match &f.value {
        FormFieldValue::Text(s) => if same_text(f.name, "run") && s.as_str().is_empty() {
            Some("Required".to_owned())
        } else {
            None
        },
        FormFieldValue::OptionalPort(Some(p)) => if same_text(f.name, "ready_port") && *p == 0 {
            Some("Port must be 1-65535".to_owned())
        } else {
            None
        },
        FormFieldValue::OptionalText(Some(url)) => if same_text(f.name, "ready_http")
            && !starts_with(url.as_str(), "http://") && !starts_with(url.as_str(), "https://") {
            Some("Must start with http:// or https://".to_owned())
        } else {
            None
        },
        _ => None,
    }
}

fn check_name(name: &str) -> (r: Option<String>)
    ensures
        text::opt_view(r) == name_error(name@),
        all_ascii(name@) ==> text::opt_view(r) == ascii_name_error(name@),
        r is None ==> forall|i: int|
            0 <= i < name@.len() && (name@[i] as u32) < 128 ==> ascii_name_char(
                #[trigger] name@[i],
            ),
{
    if name.is_empty() {
        return Some("Name is required".to_owned());
    }
    let v = chars_of(name);
    let mut i: usize = 0;
    while i < v.len()
        invariant
            i <= v@.len(),
            v@ == name@,
            name@.len() > 0,
            forall|k: int| 0 <= k < i ==> name_char(#[trigger] name@[k]),
            forall|k: int|
                0 <= k < i && (name@[k] as u32) < 128 ==> ascii_name_char(#[trigger] name@[k]),
        decreases v@.len() - i,
    {
        let c = v[i];
        if !(is_alphanumeric(c) || c == '-' || c == '_') {
            assert(!name_char(name@[i as int]));
            assert((name@[i as int] as u32) < 128 ==> !ascii_name_char(name@[i as int]));
            return Some("Only letters, digits, hyphens, and underscores allowed".to_owned());
        }
        i += 1;
    }
    None
}

impl EditorState {
    /// Marks what is wrong with the form, and says whether nothing is.
    pub fn validate(&mut self) -> (r: bool)
        ensures
            r == old(self)@.valid(),
            final(self)@ == old(self)@.checked(),
            all_ascii(old(self)@.daemon_id) ==> final(self)@.daemon_id_error == ascii_name_error(
                old(self)@.daemon_id,
            ),
            r ==> !final(self)@.daemon_id.contains('/'),
    {
        let ghost start = self@;
        self.daemon_id_error = check_name(self.daemon_id.as_str());
        let mut valid = self.daemon_id_error.is_none();
        proof {
            if valid && start.daemon_id.contains('/') {
                let k = choose|k: int|
                    0 <= k < start.daemon_id.len() && start.daemon_id[k] == '/';
                assert(ascii_name_char(self.daemon_id@[k]));
            }
        }
        let mut i: usize = 0;
        while i < self.fields.len()
            invariant
                i <= self.fields@.len(),
                self@ == (EditorView {
                    daemon_id_error: name_error(start.daemon_id),
                    fields: self@.fields,
                    ..start
                }),
                self@.fields.len() == start.fields.len(),
                forall|k: int|
                    0 <= k < i ==> #[trigger] self@.fields[k] == start.checked().fields[k],
                forall|k: int| i <= k < start.fields.len() ==> #[trigger] self@.fields[k]
                    == start.fields[k],
                all_ascii(start.daemon_id) ==> name_error(start.daemon_id) == ascii_name_error(
                    start.daemon_id,
                ),
                valid ==> !start.daemon_id.contains('/'),
                valid == (name_error(start.daemon_id) is None && forall|k: int|
                    0 <= k < i ==> field_error(#[trigger] start.fields[k]) is None),
            decreases self.fields@.len() - i,
        {
            let error = check_field(&self.fields[i]);
            let ghost before = self@.fields;
            proof {
                assert(self@.fields[i as int] == self.fields@[i as int]@);
                assert(field_error(start.fields[i as int]) == text::opt_view(error));
            }
            if error.is_some() {
                valid = false;
            }
            self.fields[i].error = error;
            proof {
                assert(self@.fields =~= before.update(
                    i as int,
                    FieldView { error: text::opt_view(error), ..before[i as int] },
                ));
            }
            i += 1;
        }
        proof {
            assert(self.fields@.len() == self@.fields.len());
            assert(self@.fields =~= start.checked().fields);
        }
        valid
    }
}

// ---------------------------------------------------------------------------
// Laws
// ---------------------------------------------------------------------------

/// Whether the environment field can show a variable: its name has no `=`, and
/// there is no white space around the name or the value.
pub open spec fn plain_variable(pair: (Seq<char>, Seq<char>)) -> bool {
    !pair.0.contains('=') && text::is_trimmed(pair.0) && text::is_trimmed(pair.1)
}

proof fn lemma_cut_entry(key: Seq<char>, value: Seq<char>)
    requires
        !key.contains('='),
    ensures
        text::cut(env_entry((key, value)), '=') == Some((key, value)),
{
    reveal_strlit("=");
    let whole = env_entry((key, value));
    let i = text::first_index(whole, '=');
    text::lemma_first_index(whole, '=');
    assert(whole[key.len() as int] == '=');
    assert(whole.contains('='));
    assert(i == key.len()) by {
        if i < key.len() {
            assert(whole[i] == key[i]);
            assert(key.contains(key[i]));
        }
    }
    assert(whole.take(i) =~= key);
    assert(whole.skip(i + 1) =~= value);
}

proof fn lemma_typed_pairs(env: Seq<(Seq<char>, Seq<char>)>)
    requires
        forall|i: int| 0 <= i < env.len() ==> plain_variable(#[trigger] env[i]),
    ensures
        typed_pairs(env.map_values(|p: (Seq<char>, Seq<char>)| env_entry(p))) == env,
    decreases env.len(),
{
    let shown = env.map_values(|p: (Seq<char>, Seq<char>)| env_entry(p));
    if env.len() > 0 {
        let rest = env.drop_last();
        assert forall|i: int| 0 <= i < rest.len() implies plain_variable(#[trigger] rest[i]) by {
            assert(rest[i] == env[i]);
        }
        lemma_typed_pairs(rest);
        assert(shown.drop_last() =~= rest.map_values(
            |p: (Seq<char>, Seq<char>)| env_entry(p),
        ));
        let last = env[env.len() - 1];
        assert(plain_variable(last));
        lemma_cut_entry(last.0, last.1);
        assert(shown.last() == env_entry(last));
        text::lemma_trimmed_fixed(last.0);
        text::lemma_trimmed_fixed(last.1);
        assert(env =~= rest.push(last));
    } else {
        assert(typed_pairs(shown) =~= env);
    }
}

proof fn lemma_env_of_distinct(pairs: Seq<(Seq<char>, Seq<char>)>)
    requires
        lists::keys(pairs).no_duplicates(),
    ensures
        config::env_of(pairs) == pairs,
    decreases pairs.len(),
{
    if pairs.len() > 0 {
        let rest = pairs.drop_last();
        let keys = lists::keys(pairs);
        assert(lists::keys(rest) =~= keys.drop_last());
        assert(lists::keys(rest).no_duplicates());
        lemma_env_of_distinct(rest);
        assert(!lists::keys(rest).contains(pairs.last().0)) by {
            if lists::keys(rest).contains(pairs.last().0) {
                let k = choose|k: int|
                    0 <= k < rest.len() && lists::keys(rest)[k] == pairs.last().0;
                assert(keys[k] == keys[keys.len() - 1]);
            }
        }
        assert(pairs =~= rest.push(pairs.last()));
    } else {
        assert(config::env_of(pairs) =~= pairs);
    }
}

proof fn lemma_named_ids(ids: Seq<IdView>, known: Seq<(Seq<char>, IdView)>)
    requires
        forall|i: int|
            0 <= i < ids.len() ==> lists::lookup(known, (#[trigger] ids[i]).qualified()) == Some(
                ids[i],
            ),
    ensures
        named_ids(ids.map_values(|id: IdView| id.qualified()), known) == ids,
    decreases ids.len(),
{
    let names = ids.map_values(|id: IdView| id.qualified());
    if ids.len() > 0 {
        let rest = ids.drop_last();
        assert forall|i: int| 0 <= i < rest.len() implies lists::lookup(
            known,
            (#[trigger] rest[i]).qualified(),
        ) == Some(rest[i]) by {
            assert(rest[i] == ids[i]);
        }
        lemma_named_ids(rest, known);
        assert(names.drop_last() =~= rest.map_values(|id: IdView| id.qualified()));
        let last = ids[ids.len() - 1];
        assert(names.last() == last.qualified());
        assert(ids =~= rest.push(last));
    } else {
        assert(named_ids(names, known) =~= ids);
    }
}

/// Whether the form can show a section: its environment, where it has one, is
/// not empty and is made of variables that the field can show.
pub open spec fn showable_env(c: ConfigView) -> bool {
    c.env matches Some(env) ==> {
        &&& env.len() > 0
        &&& lists::keys(env).no_duplicates()
        &&& forall|i: int| 0 <= i < env.len() ==> plain_variable(#[trigger] env[i])
    }
}

/// Opening a section in the form and reading the form back gives the section,
/// in the file of the editor, but for the parts that the form does not keep.
/// The readiness command and the accepted status codes, which have no field,
/// are kept.
pub proof fn law_edit_round_trip(
    mode: ModeView,
    daemon_id: Seq<char>,
    c: ConfigView,
    path: Seq<char>,
    known: Seq<(Seq<char>, IdView)>,
)
    requires
        showable_env(c),
        forall|i: int|
            0 <= i < c.depends.len() ==> lists::lookup(known, (#[trigger] c.depends[i]).qualified())
                == Some(c.depends[i]),
    ensures
        opened(mode, daemon_id, false, c, path).section(known) == (ConfigView {
            path: Some(path),
            port: None,
            mise: None,
            slug: None,
            proxy: None,
            ..c
        }),
{
    let e = opened(mode, daemon_id, false, c, path);
    let f = form_of(c);
    let status = e.kept_status();
    let d0 = e.blank_draft();
    let schedule = match c.cron {
        Some(cron) => Some(cron.schedule),
        None => None,
    };
    let retrigger = match c.cron {
        Some(cron) => cron.retrigger,
        None => CronRetrigger::Finish,
    };
    assert(f.len() == 14);
    let d1 = Draft { config: ConfigView { run: c.run, ..d0.config }, ..d0 };
    assert(reading(d0, f, status, known, 1) == d1) by {
        lemma_reading(d0, f, status, known, 1);
    }
    let d2 = Draft { config: ConfigView { dir: c.dir, ..d1.config }, ..d1 };
    assert(reading(d0, f, status, known, 2) == d2) by {
        reveal_strlit("dir");
        assert("dir"@.len() == 3);
        lemma_reading(d0, f, status, known, 2);
    }
    let d3 = Draft { config: ConfigView { env: c.env, ..d2.config }, ..d2 };
    assert(reading(d0, f, status, known, 3) == d3) by {
        reveal_strlit("env");
        assert("env"@.len() == 3);
        match c.env {
            Some(env) => {
                lemma_typed_pairs(env);
                lemma_env_of_distinct(env);
            },
            None => {
                assert(config::env_of(typed_pairs(Seq::empty())) =~= Seq::empty());
            },
        }
        lemma_reading(d0, f, status, known, 3);
    }
    let d4 = Draft { config: ConfigView { auto: c.auto, ..d3.config }, ..d3 };
    assert(reading(d0, f, status, known, 4) == d4) by {
        lemma_reading(d0, f, status, known, 4);
    }
    let d5 = Draft { config: ConfigView { retry: c.retry, ..d4.config }, ..d4 };
    assert(reading(d0, f, status, known, 5) == d5) by {
        lemma_reading(d0, f, status, known, 5);
    }
    let d6 = Draft { config: ConfigView { ready_delay: c.ready_delay, ..d5.config }, ..d5 };
    assert(reading(d0, f, status, known, 6) == d6) by {
        lemma_reading(d0, f, status, known, 6);
    }
    let d7 = Draft { config: ConfigView { ready_output: c.ready_output, ..d6.config }, ..d6 };
    assert(reading(d0, f, status, known, 7) == d7) by {
        reveal_strlit("dir");
        assert("dir"@.len() == 3);
        reveal_strlit("ready_output");
        assert("ready_output"@.len() == 12);
        lemma_reading(d0, f, status, known, 7);
    }
    let d8 = Draft { config: ConfigView { ready_http: c.ready_http, ..d7.config }, ..d7 };
    assert(reading(d0, f, status, known, 8) == d8) by {
        reveal_strlit("dir");
        assert("dir"@.len() == 3);
        reveal_strlit("ready_output");
        assert("ready_output"@.len() == 12);
        reveal_strlit("ready_http");
        assert("ready_http"@.len() == 10);
        assert(c.ready_http matches Some(h) ==> status =~= h.status);
        lemma_reading(d0, f, status, known, 8);
    }
    let d9 = Draft { config: ConfigView { ready_port: c.ready_port, ..d8.config }, ..d8 };
    assert(reading(d0, f, status, known, 9) == d9) by {
        lemma_reading(d0, f, status, known, 9);
    }
    let d10 = Draft { config: ConfigView { boot_start: c.boot_start, ..d9.config }, ..d9 };
    assert(reading(d0, f, status, known, 10) == d10) by {
        lemma_reading(d0, f, status, known, 10);
    }
    let d11 = Draft { config: ConfigView { depends: c.depends, ..d10.config }, ..d10 };
    assert(reading(d0, f, status, known, 11) == d11) by {
        reveal_strlit("env");
        assert("env"@.len() == 3);
        reveal_strlit("depends");
        assert("depends"@.len() == 7);
        lemma_named_ids(c.depends, known);
        lemma_reading(d0, f, status, known, 11);
    }
    let d12 = Draft { config: ConfigView { watch: c.watch, ..d11.config }, ..d11 };
    assert(reading(d0, f, status, known, 12) == d12) by {
        reveal_strlit("env");
        assert("env"@.len() == 3);
        reveal_strlit("depends");
        assert("depends"@.len() == 7);
        reveal_strlit("watch");
        assert("watch"@.len() == 5);
        lemma_reading(d0, f, status, known, 12);
    }
    let d13 = Draft { cron_schedule: schedule, ..d12 };
    assert(reading(d0, f, status, known, 13) == d13) by {
        reveal_strlit("dir");
        assert("dir"@.len() == 3);
        reveal_strlit("ready_output");
        assert("ready_output"@.len() == 12);
        reveal_strlit("ready_http");
        assert("ready_http"@.len() == 10);
        reveal_strlit("cron_schedule");
        assert("cron_schedule"@.len() == 13);
        lemma_reading(d0, f, status, known, 13);
    }
    let d14 = Draft { cron_retrigger: retrigger, ..d13 };
    assert(reading(d0, f, status, known, 14) == d14) by {
        lemma_reading(d0, f, status, known, 14);
    }
    assert(d0.with_fields(f, status, known) == d14) by {
        lemma_reading(d0, f, status, known, 14);
        assert(f.take(14) =~= f);
    }
}

/// Whether a table gives daemons under their qualified names alone.
pub open spec fn by_qualified_name(known: Seq<(Seq<char>, IdView)>) -> bool {
    forall|i: int|
        0 <= i < known.len() ==> (#[trigger] known[i]).0 == known[i].1.qualified()
            && !known[i].1.namespace.contains('/')
}

/// The same with any table that gives daemons under their qualified names and
/// holds those that the section depends on, whatever else it holds.
pub proof fn law_edit_round_trip_by_name(
    mode: ModeView,
    daemon_id: Seq<char>,
    c: ConfigView,
    path: Seq<char>,
    known: Seq<(Seq<char>, IdView)>,
)
    requires
        showable_env(c),
        by_qualified_name(known),
        forall|i: int|
            0 <= i < c.depends.len() ==> known.contains(
                ((#[trigger] c.depends[i]).qualified(), c.depends[i]),
            ),
    ensures
        opened(mode, daemon_id, false, c, path).section(known) == (ConfigView {
            path: Some(path),
            port: None,
            mise: None,
            slug: None,
            proxy: None,
            ..c
        }),
{
    assert forall|i: int| 0 <= i < c.depends.len() implies lists::lookup(
        known,
        (#[trigger] c.depends[i]).qualified(),
    ) == Some(c.depends[i]) by {
        let id = c.depends[i];
        let key = id.qualified();
        assert(known.contains((key, id)));
        let k = choose|k: int| 0 <= k < known.len() && known[k] == (key, id);
        assert(lists::keys(known)[k] == key);
        lists::lemma_lookup(known, key);
        let j = choose|j: int|
            0 <= j < known.len() && known[j] == (key, lists::lookup(known, key)->0);
        assert(known[j].0 == known[j].1.qualified() && known[k].0 == known[k].1.qualified());
        daemon::law_qualified_names_tell_daemons_apart(known[j].1, id);
    }
    law_edit_round_trip(mode, daemon_id, c, path, known);
}

/// The draft after the first `n` fields were read.
#[verifier::opaque]
spec fn reading(
    d: Draft,
    fields: Seq<FieldView>,
    status: Seq<u16>,
    known: Seq<(Seq<char>, IdView)>,
    n: int,
) -> Draft {
    d.with_fields(fields.take(n), status, known)
}

proof fn lemma_reading(
    d: Draft,
    fields: Seq<FieldView>,
    status: Seq<u16>,
    known: Seq<(Seq<char>, IdView)>,
    n: int,
)
    requires
        0 < n <= fields.len(),
    ensures
        reading(d, fields, status, known, 0) == d,
        reading(d, fields, status, known, n) == d.with_fields(fields.take(n), status, known),
        reading(d, fields, status, known, n) == reading(
            d,
            fields,
            status,
            known,
            n - 1,
        ).with_field(fields[n - 1], status, known),
{
    reveal(reading);
    assert(fields.take(n).drop_last() =~= fields.take(n - 1));
    assert(fields.take(0).len() == 0);
}

/// Whether two fields are the same but for what they hold: they have the same
/// name, label, help text and flags, and hold values of the same kind.
pub open spec fn same_field(f: FieldView, g: FieldView) -> bool {
    &&& f == (FieldView { value: f.value, ..g })
    &&& form::same_kind(f.value, g.value)
}

/// The form for a section has the fields of the empty form, in its order; they
/// differ in what they hold alone, and that is what the section says.
pub proof fn law_filled_forms_keep_the_fields(c: ConfigView)
    ensures
        form_of(c).len() == form_of(config::empty_config()).len(),
        forall|i: int|
            0 <= i < form_of(c).len() ==> same_field(
                #[trigger] form_of(c)[i],
                form_of(config::empty_config())[i],
            ),
        form_of(c)[0].value == ValueView::Text(c.run),
        form_of(c)[1].value == ValueView::OptionalText(c.dir),
        c.env matches Some(env) ==> form_of(c)[2].value == ValueView::StringList(
            env.map_values(|p: (Seq<char>, Seq<char>)| env_entry(p)),
        ),
        c.env is None ==> form_of(c)[2].value == ValueView::StringList(Seq::empty()),
        form_of(c)[3].value == ValueView::AutoBehavior(c.auto),
        form_of(c)[4].value == ValueView::Number(c.retry.0),
        form_of(c)[5].value == ValueView::OptionalNumber(c.ready_delay),
        form_of(c)[6].value == ValueView::OptionalText(c.ready_output),
        c.ready_http matches Some(h) ==> form_of(c)[7].value == ValueView::OptionalText(
            Some(h.url),
        ),
        c.ready_http is None ==> form_of(c)[7].value == ValueView::OptionalText(None),
        form_of(c)[8].value == ValueView::OptionalPort(c.ready_port),
        form_of(c)[9].value == ValueView::OptionalBoolean(c.boot_start),
        form_of(c)[10].value == ValueView::StringList(
            c.depends.map_values(|id: IdView| id.qualified()),
        ),
        form_of(c)[11].value == ValueView::StringList(c.watch),
        c.cron matches Some(cron) ==> form_of(c)[12].value == ValueView::OptionalText(
            Some(cron.schedule),
        ) && form_of(c)[13].value == ValueView::Retrigger(cron.retrigger),
        c.cron is None ==> form_of(c)[12].value == ValueView::OptionalText(None) && form_of(
            c,
        )[13].value == ValueView::Retrigger(CronRetrigger::Finish),
{
    let f = form_of(c);
    let g = form_of(config::empty_config());
    assert(f.len() == 14 && g.len() == 14);
    assert forall|i: int| 0 <= i < f.len() implies same_field(#[trigger] f[i], g[i]) by {
        assert(i == 0 || i == 1 || i == 2 || i == 3 || i == 4 || i == 5 || i == 6 || i == 7 || i
            == 8 || i == 9 || i == 10 || i == 11 || i == 12 || i == 13);
    }
}

/// Whether a field is the one for the command.
pub open spec fn is_command_field(f: FieldView) -> bool {
    f.name == "run"@ && f.value is Text
}

/// Whether a supervisor can make something of the readiness port and address.
pub open spec fn checks_make_sense(c: ConfigView) -> bool {
    &&& c.ready_port != Some(0u16)
    &&& c.ready_http matches Some(h) ==> text::has_prefix(h.url, "http://"@) || text::has_prefix(
        h.url,
        "https://"@,
    )
}

proof fn lemma_valid_fields(
    d: Draft,
    fields: Seq<FieldView>,
    status: Seq<u16>,
    known: Seq<(Seq<char>, IdView)>,
)
    requires
        checks_make_sense(d.config),
        forall|i: int| 0 <= i < fields.len() ==> field_error(#[trigger] fields[i]) is None,
    ensures
        checks_make_sense(d.with_fields(fields, status, known).config),
        (exists|i: int| 0 <= i < fields.len() && is_command_field(#[trigger] fields[i]))
            ==> d.with_fields(fields, status, known).config.run.len() > 0,
    decreases fields.len(),
{
    if fields.len() > 0 {
        let rest = fields.drop_last();
        let f = fields.last();
        assert forall|i: int| 0 <= i < rest.len() implies field_error(#[trigger] rest[i]) is None by {
            assert(rest[i] == fields[i]);
        }
        lemma_valid_fields(d, rest, status, known);
        assert(f == fields[fields.len() - 1]);
        assert(field_error(f) is None);
        let before = d.with_fields(rest, status, known);
        let after = before.with_field(f, status, known);
        assert(checks_make_sense(after.config));
        if exists|i: int| 0 <= i < fields.len() && is_command_field(#[trigger] fields[i]) {
            let i = choose|i: int| 0 <= i < fields.len() && is_command_field(#[trigger] fields[i]);
            if !is_command_field(f) {
                assert(rest[i] == fields[i]);
                assert(is_command_field(rest[i]));
                assert(after.config.run == before.config.run);
            }
        }
    }
}

/// A form that is found valid gives a section that has a command, where the
/// form has a field for it, and whose readiness port and address make sense.
pub proof fn law_valid_forms_give_sound_sections(e: EditorView, known: Seq<(Seq<char>, IdView)>)
    requires
        e.valid(),
    ensures
        checks_make_sense(e.section(known)),
        (exists|i: int| 0 <= i < e.fields.len() && is_command_field(#[trigger] e.fields[i]))
            ==> e.section(known).run.len() > 0,
        e.section(known).path == Some(e.config_path),
{
    lemma_valid_fields(e.blank_draft(), e.fields, e.kept_status(), known);
    lemma_path_stays(e.blank_draft(), e.fields, e.kept_status(), known);
}

proof fn lemma_path_stays(
    d: Draft,
    fields: Seq<FieldView>,
    status: Seq<u16>,
    known: Seq<(Seq<char>, IdView)>,
)
    ensures
        d.with_fields(fields, status, known).config.path == d.config.path,
    decreases fields.len(),
{
    if fields.len() > 0 {
        lemma_path_stays(d, fields.drop_last(), status, known);
    }
}

/// Every form that is opened has a field for the command, and typing, switching
/// and moving about never take it away.
pub proof fn law_forms_keep_a_command_field(
    mode: ModeView,
    daemon_id: Seq<char>,
    name_first: bool,
    section: ConfigView,
    path: Seq<char>,
    e: EditorView,
    c: char,
    i: int,
)
    requires
        0 <= i < e.fields.len(),
        is_command_field(e.fields[i]),
    ensures
        is_command_field(opened(mode, daemon_id, name_first, section, path).fields[0]),
        is_command_field(e.next().fields[i]),
        is_command_field(e.prev().fields[i]),
        is_command_field(e.toggled().fields[i]),
        is_command_field(e.editing_started().fields[i]),
        is_command_field(e.pushed(c).fields[i]),
        is_command_field(e.popped().fields[i]),
        is_command_field(e.checked().fields[i]),
{
}

/// A character that is typed into the name and taken back leaves the name and
/// the cursor as they were.
pub proof fn law_name_push_pop(e: EditorView, c: char)
    requires
        e.daemon_id_editing,
        e.daemon_id_cursor <= e.daemon_id.len(),
        e.daemon_id_cursor < usize::MAX,
    ensures
        e.pushed(c).popped() == (EditorView { unsaved_changes: true, ..e }),
{
    assert(e.pushed(c).popped().daemon_id =~= e.daemon_id);
}

/// A character that is typed into a text field and taken back leaves what the
/// field shows and the cursor as they were, and all else but the note that
/// something changed. The value itself comes back too, except that an optional
/// text that was there but empty is gone.
pub proof fn law_text_push_pop(e: EditorView, c: char)
    requires
        !e.daemon_id_editing,
        e.types_in_field(),
        e.focused().value is Text || e.focused().value is OptionalText,
        e.focused().cursor <= e.focused().value.text().len(),
        e.focused().cursor < usize::MAX,
    ensures
        ({
            let back = e.pushed(c).popped();
            &&& back.focused().value.text() == e.focused().value.text()
            &&& back.focused().cursor == e.focused().cursor
            &&& form::same_kind(back.focused().value, e.focused().value)
            &&& back == (EditorView {
                unsaved_changes: true,
                ..e.with_focused(FieldView { value: back.focused().value, ..e.focused() })
            })
            &&& form::showable(e.focused().value) ==> back == (EditorView {
                unsaved_changes: true,
                ..e
            })
        }),
{
    let f = e.focused();
    let s = f.value.text();
    let t = with_char(s, f.cursor, c);
    assert(t.remove(f.cursor as int) =~= s);
    let p = e.pushed(c);
    assert(p.focused().value.text() == t);
    let back = p.popped();
    assert(back.focused() == (FieldView { value: f.value.with_text(s), ..f }));
    assert(back.fields =~= e.fields.update(e.focused_field as int, back.focused()));
    if form::showable(f.value) {
        form::law_text_round_trip(f.value);
        assert(back.fields =~= e.fields);
    }
}

/// The focus never leaves the form.
pub proof fn law_focus_stays(e: EditorView, c: char)
    requires
        e.has_focus(),
    ensures
        e.next().has_focus(),
        e.prev().has_focus(),
        e.toggled().has_focus(),
        e.editing_started().has_focus(),
        e.pushed(c).has_focus(),
        e.popped().has_focus(),
        e.checked().has_focus(),
{
}

/// Checking the form again finds the same, and changes nothing more.
pub proof fn law_checking_is_stable(e: EditorView)
    ensures
        e.checked().checked() == e.checked(),
        e.checked().valid() == e.valid(),
{
    let once = e.checked();
    assert(once.checked().fields =~= once.fields);
    assert forall|i: int| 0 <= i < e.fields.len() implies field_error(#[trigger] once.fields[i])
        == field_error(e.fields[i]) by {}
    if once.valid() {
        assert forall|i: int| 0 <= i < e.fields.len() implies field_error(
            #[trigger] e.fields[i],
        ) is None by {
            assert(field_error(once.fields[i]) is None);
        }
    }
}

// ---------------------------------------------------------------------------
// Laws: what the form and its section have to do with each other
// ---------------------------------------------------------------------------

/// The form asks for each part of a section under its own name and label; only
/// the command has to be there.
pub proof fn law_the_form_asks_for_each_part(c: ConfigView)
    ensures
        form_of(c).len() == 14,
        form_of(c)[0].name == "run"@ && form_of(c)[0].label == "Run Command"@,
        form_of(c)[1].name == "dir"@ && form_of(c)[1].label == "Working Directory"@,
        form_of(c)[2].name == "env"@ && form_of(c)[2].label == "Environment Variables"@,
        form_of(c)[3].name == "auto"@ && form_of(c)[3].label == "Auto Behavior"@,
        form_of(c)[4].name == "retry"@ && form_of(c)[4].label == "Retry Count"@,
        form_of(c)[5].name == "ready_delay"@ && form_of(c)[5].label == "Ready Delay (ms)"@,
        form_of(c)[6].name == "ready_output"@ && form_of(c)[6].label == "Ready Output Pattern"@,
        form_of(c)[7].name == "ready_http"@ && form_of(c)[7].label == "Ready HTTP URL"@,
        form_of(c)[8].name == "ready_port"@ && form_of(c)[8].label == "Ready Port"@,
        form_of(c)[9].name == "boot_start"@ && form_of(c)[9].label == "Start on Boot"@,
        form_of(c)[10].name == "depends"@ && form_of(c)[10].label == "Dependencies"@,
        form_of(c)[11].name == "watch"@ && form_of(c)[11].label == "Watch Files"@,
        form_of(c)[12].name == "cron_schedule"@ && form_of(c)[12].label == "Cron Schedule"@,
        form_of(c)[13].name == "cron_retrigger"@ && form_of(c)[13].label == "Cron Retrigger"@,
        form_of(c)[0].required,
        forall|i: int| 0 < i < 14 ==> !(#[trigger] form_of(c)[i]).required,
        forall|i: int|
            0 <= i < 14 ==> (#[trigger] form_of(c)[i]).error is None && !form_of(c)[i].editing
                && form_of(c)[i].cursor == 0,
{
    let f = form_of(c);
    assert forall|i: int| 0 <= i < 14 implies (#[trigger] f[i]).error is None && !f[i].editing
        && f[i].cursor == 0 && (i > 0 ==> !f[i].required) by {
        assert(i == 0 || i == 1 || i == 2 || i == 3 || i == 4 || i == 5 || i == 6 || i == 7 || i
            == 8 || i == 9 || i == 10 || i == 11 || i == 12 || i == 13);
    }
}

/// Whether the part of a draft that a field is for is what the field holds.
spec fn part_is_set(
    d: Draft,
    f: FieldView,
    status: Seq<u16>,
    known: Seq<(Seq<char>, IdView)>,
) -> bool {
    let c = d.config;
    &&& f.name == "run"@ && f.value is Text ==> c.run == f.value->Text_0
    &&& f.name == "dir"@ && f.value is OptionalText ==> c.dir == f.value->OptionalText_0
    &&& f.name == "ready_output"@ && f.value is OptionalText ==> c.ready_output
        == f.value->OptionalText_0
    &&& f.name == "ready_http"@ && f.value is OptionalText ==> (match f.value->OptionalText_0 {
        Some(url) => c.ready_http == Some(ReadyHttpView { url, status }),
        None => c.ready_http is None,
    })
    &&& f.name == "cron_schedule"@ && f.value is OptionalText ==> d.cron_schedule
        == f.value->OptionalText_0
    &&& f.name == "env"@ && f.value is StringList ==> c.env == typed_env(f.value->StringList_0)
    &&& f.name == "depends"@ && f.value is StringList ==> c.depends == named_ids(
        f.value->StringList_0,
        known,
    )
    &&& f.name == "watch"@ && f.value is StringList ==> c.watch == f.value->StringList_0
    &&& f.name == "auto"@ && f.value is AutoBehavior ==> c.auto == f.value->AutoBehavior_0
    &&& f.name == "retry"@ && f.value is Number ==> c.retry == Retry(f.value->Number_0)
    &&& f.name == "ready_delay"@ && f.value is OptionalNumber ==> c.ready_delay
        == f.value->OptionalNumber_0
    &&& f.name == "ready_port"@ && f.value is OptionalPort ==> c.ready_port
        == f.value->OptionalPort_0
    &&& f.name == "boot_start"@ && f.value is OptionalBoolean ==> c.boot_start
        == f.value->OptionalBoolean_0
    &&& f.name == "cron_retrigger"@ && f.value is Retrigger ==> d.cron_retrigger
        == f.value->Retrigger_0
}

proof fn lemma_part_is_set(d: Draft, f: FieldView, status: Seq<u16>, known: Seq<(Seq<char>, IdView)>)
    ensures
        part_is_set(d.with_field(f, status, known), f, status, known),
{
    reveal_strlit("dir");
    reveal_strlit("ready_output");
    reveal_strlit("ready_http");
    reveal_strlit("cron_schedule");
    reveal_strlit("env");
    reveal_strlit("depends");
    reveal_strlit("watch");
    assert("dir"@.len() == 3 && "ready_output"@.len() == 12 && "ready_http"@.len() == 10
        && "cron_schedule"@.len() == 13);
    assert("env"@.len() == 3 && "depends"@.len() == 7 && "watch"@.len() == 5);
}

proof fn lemma_other_parts_stay(
    d: Draft,
    f: FieldView,
    other: FieldView,
    status: Seq<u16>,
    known: Seq<(Seq<char>, IdView)>,
)
    requires
        part_is_set(d, other, status, known),
        f.name != other.name,
    ensures
        part_is_set(d.with_field(f, status, known), other, status, known),
{
}

/// Whether no two fields have the same name.
pub open spec fn names_differ(fields: Seq<FieldView>) -> bool {
    forall|i: int, j: int|
        0 <= i < j < fields.len() ==> (#[trigger] fields[i]).name != (#[trigger] fields[j]).name
}

proof fn lemma_all_parts_are_set(
    d: Draft,
    fields: Seq<FieldView>,
    status: Seq<u16>,
    known: Seq<(Seq<char>, IdView)>,
    k: int,
)
    requires
        names_differ(fields),
        0 <= k < fields.len(),
    ensures
        part_is_set(d.with_fields(fields, status, known), fields[k], status, known),
    decreases fields.len(),
{
    let rest = fields.drop_last();
    let before = d.with_fields(rest, status, known);
    let last = fields.last();
    assert(last == fields[fields.len() - 1]);
    if k == fields.len() - 1 {
        lemma_part_is_set(before, last, status, known);
    } else {
        assert forall|i: int, j: int| 0 <= i < j < rest.len() implies (#[trigger] rest[i]).name != (
        #[trigger] rest[j]).name by {
            assert(rest[i] == fields[i] && rest[j] == fields[j]);
        }
        assert(rest[k] == fields[k]);
        lemma_all_parts_are_set(d, rest, status, known, k);
        assert(fields[k].name != fields[fields.len() - 1].name);
        lemma_other_parts_stay(before, last, fields[k], status, known);
    }
}

/// Every field of a form whose fields have different names gives its part of
/// the section: the one that it is named after, and as it stands in the field.
/// The readiness address keeps its status codes, and a schedule its behaviour.
pub proof fn law_each_field_gives_its_part(
    e: EditorView,
    known: Seq<(Seq<char>, IdView)>,
    k: int,
    r: int,
)
    requires
        names_differ(e.fields),
        0 <= k < e.fields.len(),
        0 <= r < e.fields.len(),
    ensures
        ({
            let c = e.section(known);
            let f = e.fields[k];
            &&& f.name == "run"@ && f.value is Text ==> c.run == f.value->Text_0
            &&& f.name == "dir"@ && f.value is OptionalText ==> c.dir == f.value->OptionalText_0
            &&& f.name == "ready_output"@ && f.value is OptionalText ==> c.ready_output
                == f.value->OptionalText_0
            &&& f.name == "ready_http"@ && f.value == ValueView::OptionalText(None)
                ==> c.ready_http is None
            &&& f.name == "ready_http"@ && f.value is OptionalText && f.value->OptionalText_0
                is Some ==> c.ready_http is Some && c.ready_http->0.url == f.value->OptionalText_0->0
            &&& f.name == "ready_http"@ && f.value is OptionalText && f.value->OptionalText_0
                is Some && e.preserved_ready_http_status is Some ==> c.ready_http->0.status
                == e.preserved_ready_http_status->0
            &&& f.name == "ready_http"@ && f.value is OptionalText && f.value->OptionalText_0
                is Some && e.preserved_ready_http_status is None ==> c.ready_http->0.status.len()
                == 0
            &&& f.name == "env"@ && f.value is StringList ==> c.env == typed_env(
                f.value->StringList_0,
            )
            &&& f.name == "depends"@ && f.value is StringList ==> c.depends == named_ids(
                f.value->StringList_0,
                known,
            )
            &&& f.name == "watch"@ && f.value is StringList ==> c.watch == f.value->StringList_0
            &&& f.name == "auto"@ && f.value is AutoBehavior ==> c.auto == f.value->AutoBehavior_0
            &&& f.name == "retry"@ && f.value is Number ==> c.retry == Retry(f.value->Number_0)
            &&& f.name == "ready_delay"@ && f.value is OptionalNumber ==> c.ready_delay
                == f.value->OptionalNumber_0
            &&& f.name == "ready_port"@ && f.value is OptionalPort ==> c.ready_port
                == f.value->OptionalPort_0
            &&& f.name == "boot_start"@ && f.value is OptionalBoolean ==> c.boot_start
                == f.value->OptionalBoolean_0
            &&& f.name == "cron_schedule"@ && f.value == ValueView::OptionalText(None) ==> c.cron
                is None
            &&& f.name == "cron_schedule"@ && f.value is OptionalText && f.value->OptionalText_0
                is Some ==> c.cron is Some && c.cron->0.schedule == f.value->OptionalText_0->0 && (
            e.fields[r].name == "cron_retrigger"@ && e.fields[r].value is Retrigger
                ==> c.cron->0.retrigger == e.fields[r].value->Retrigger_0)
        }),
{
    let d = e.blank_draft().with_fields(e.fields, e.kept_status(), known);
    lemma_all_parts_are_set(e.blank_draft(), e.fields, e.kept_status(), known, k);
    lemma_all_parts_are_set(e.blank_draft(), e.fields, e.kept_status(), known, r);
    lemma_unasked_parts(e.blank_draft(), e.fields, e.kept_status(), known);
    assert(part_is_set(d, e.fields[k], e.kept_status(), known));
    assert(part_is_set(d, e.fields[r], e.kept_status(), known));
}

/// What the form has no field for is as it was kept, or is not there.
pub proof fn law_unasked_parts_are_kept(e: EditorView, known: Seq<(Seq<char>, IdView)>)
    ensures
        ({
            let c = e.section(known);
            &&& c.ready_cmd == e.preserved_ready_cmd
            &&& c.path == Some(e.config_path)
            &&& c.port is None
            &&& c.mise is None
            &&& c.slug is None
            &&& c.proxy is None
        }),
{
    lemma_unasked_parts(e.blank_draft(), e.fields, e.kept_status(), known);
}

proof fn lemma_unasked_parts(
    d: Draft,
    fields: Seq<FieldView>,
    status: Seq<u16>,
    known: Seq<(Seq<char>, IdView)>,
)
    ensures
        ({
            let c = d.with_fields(fields, status, known).config;
            &&& c.ready_cmd == d.config.ready_cmd
            &&& c.path == d.config.path
            &&& c.port == d.config.port
            &&& c.mise == d.config.mise
            &&& c.slug == d.config.slug
            &&& c.proxy == d.config.proxy
            &&& c.cron == d.config.cron
        }),
    decreases fields.len(),
{
    if fields.len() > 0 {
        lemma_unasked_parts(d, fields.drop_last(), status, known);
    }
}

/// The variables of the environment field: each entry gives the one whose name
/// stands before its first `=` and whose value stands behind it, without white
/// space around them, and an entry without a `=` gives none. They come in the
/// order of the entries.
pub proof fn law_entries_give_variables(
    a: Seq<Seq<char>>,
    b: Seq<Seq<char>>,
    key: Seq<char>,
    value: Seq<char>,
    other: Seq<char>,
)
    requires
        !key.contains('='),
        !other.contains('='),
    ensures
        typed_pairs(a + b) == typed_pairs(a) + typed_pairs(b),
        typed_pairs(seq![key.push('=') + value]) == seq![
            (text::trimmed(key), text::trimmed(value)),
        ],
        typed_pairs(seq![other]).len() == 0,
    decreases b.len(),
{
    if b.len() > 0 {
        let c = b.drop_last();
        law_entries_give_variables(a, c, key, value, other);
        assert((a + b).drop_last() =~= a + c);
        assert((a + b).last() == b.last());
        assert(typed_pairs(a + b) =~= typed_pairs(a) + typed_pairs(b));
    } else {
        assert(a + b =~= a);
        assert(typed_pairs(a) + typed_pairs(b) =~= typed_pairs(a));
    }
    reveal_strlit("=");
    lemma_cut_entry(key, value);
    let entry = key.push('=') + value;
    assert(env_entry((key, value)) =~= entry);
    let one = seq![entry];
    assert(one.drop_last() =~= Seq::empty());
    assert(one.last() == entry);
    assert(typed_pairs(one.drop_last()) =~= Seq::empty());
    assert(typed_pairs(one) =~= seq![(text::trimmed(key), text::trimmed(value))]);
    text::law_texts_are_cut_once(other, '=');
    let two = seq![other];
    assert(two.drop_last() =~= Seq::empty());
    assert(two.last() == other);
}

/// The environment holds the variables that the entries give, each with the
/// last value that is given; there is none where they give none.
pub proof fn law_the_environment_is_what_was_typed(entries: Seq<Seq<char>>, key: Seq<char>)
    ensures
        typed_env(entries) is None <==> typed_pairs(entries).len() == 0,
        typed_env(entries) matches Some(env) ==> lists::lookup(env, key) == lists::lookup(
            typed_pairs(entries),
            key,
        ) && lists::keys(env).no_duplicates(),
        lists::keys(typed_pairs(entries)).no_duplicates() && typed_pairs(entries).len() > 0
            ==> typed_env(entries) == Some(typed_pairs(entries)),
{
    let pairs = typed_pairs(entries);
    config::law_the_last_value_counts(pairs, key);
    if pairs.len() > 0 {
        let k = pairs.last().0;
        config::law_the_last_value_counts(pairs, k);
        lists::lemma_lookup(config::env_of(pairs), k);
        assert(lists::lookup(pairs, k) is Some);
        assert(lists::keys(config::env_of(pairs)).contains(k));
    }
}

/// The daemons that the names stand for, in the order of the names; a name that
/// stands for none gives none.
pub proof fn law_names_stand_for_daemons(
    a: Seq<Seq<char>>,
    b: Seq<Seq<char>>,
    name: Seq<char>,
    known: Seq<(Seq<char>, IdView)>,
)
    ensures
        named_ids(a + b, known) == named_ids(a, known) + named_ids(b, known),
        lists::lookup(known, name) is Some ==> named_ids(seq![name], known) == seq![
            lists::lookup(known, name)->0,
        ],
        lists::lookup(known, name) is None ==> named_ids(seq![name], known).len() == 0,
    decreases b.len(),
{
    if b.len() > 0 {
        let c = b.drop_last();
        law_names_stand_for_daemons(a, c, name, known);
        assert((a + b).drop_last() =~= a + c);
        assert((a + b).last() == b.last());
        assert(named_ids(a + b, known) =~= named_ids(a, known) + named_ids(b, known));
    } else {
        assert(a + b =~= a);
        assert(named_ids(a, known) + named_ids(b, known) =~= named_ids(a, known));
    }
    let one = seq![name];
    assert(one.drop_last() =~= Seq::empty());
    assert(one.last() == name);
    assert(named_ids(one.drop_last(), known) =~= Seq::empty());
    if lists::lookup(known, name) is Some {
        assert(named_ids(one, known) =~= seq![lists::lookup(known, name)->0]);
    }
}

/// What is kept of a section beside the form.
pub proof fn law_what_opens_with_the_form(
    mode: ModeView,
    daemon_id: Seq<char>,
    name_first: bool,
    c: ConfigView,
    path: Seq<char>,
)
    ensures
        ({
            let e = opened(mode, daemon_id, name_first, c, path);
            &&& e.mode == mode
            &&& e.daemon_id == daemon_id
            &&& e.daemon_id_editing == name_first
            &&& e.daemon_id_cursor == 0 && e.daemon_id_error is None
            &&& e.fields == form_of(c)
            &&& e.focused_field == 0 && e.scroll_offset == 0
            &&& e.config_path == path
            &&& !e.unsaved_changes
            &&& e.preserved_ready_cmd == c.ready_cmd
            &&& c.ready_http is Some && c.ready_http->0.status.len() > 0
                ==> e.preserved_ready_http_status == Some(c.ready_http->0.status)
            &&& c.ready_http is None || c.ready_http->0.status.len() == 0
                ==> e.preserved_ready_http_status is None
        }),
{
}

// ---------------------------------------------------------------------------
// Laws: moving about, typing and checking
// ---------------------------------------------------------------------------

/// Whether an editor is another one but for the field in focus.
pub open spec fn differs_in_focus(e: EditorView, f: EditorView) -> bool {
    &&& e.fields.len() == f.fields.len()
    &&& forall|i: int|
        0 <= i < f.fields.len() && i != f.focused_field ==> #[trigger] e.fields[i] == f.fields[i]
}

/// Moving on goes from the name into the form, and in the form one field
/// further, up to the last; moving back goes one field back, down to the first.
/// Either ends all typing in the field that is left, and changes nothing else.
pub proof fn law_moving_goes_field_by_field(e: EditorView)
    requires
        e.has_focus(),
        e.fields.len() <= usize::MAX,
    ensures
        ({
            let n = e.next();
            let p = e.prev();
            &&& !n.daemon_id_editing && !p.daemon_id_editing
            &&& e.daemon_id_editing ==> n.focused_field == e.focused_field
            &&& !e.daemon_id_editing && e.focused_field + 1 < e.fields.len() ==> n.focused_field
                == e.focused_field + 1
            &&& !e.daemon_id_editing && e.focused_field + 1 == e.fields.len() ==> n.focused_field
                == e.focused_field
            &&& e.focused_field > 0 ==> p.focused_field == e.focused_field - 1
            &&& e.focused_field == 0 ==> p.focused_field == 0
            &&& differs_in_focus(n, e) && differs_in_focus(p, e)
            &&& n.fields[e.focused_field as int] == (FieldView { editing: false, ..e.focused() })
            &&& p.fields[e.focused_field as int] == (FieldView { editing: false, ..e.focused() })
            &&& n == (EditorView {
                daemon_id_editing: n.daemon_id_editing,
                focused_field: n.focused_field,
                fields: n.fields,
                ..e
            })
            &&& p == (EditorView {
                daemon_id_editing: p.daemon_id_editing,
                focused_field: p.focused_field,
                fields: p.fields,
                ..e
            })
        }),
{
}

/// Moving on and back leads to the same field, and so does moving back and on.
pub proof fn law_moving_back_undoes_moving_on(e: EditorView)
    requires
        e.has_focus(),
        e.fields.len() <= usize::MAX,
        !e.daemon_id_editing,
    ensures
        e.focused_field + 1 < e.fields.len() ==> e.next().prev().focused_field == e.focused_field,
        e.focused_field > 0 ==> e.prev().next().focused_field == e.focused_field,
{
}

/// Editing a field puts the cursor at the end of what it shows; a field that is
/// switched goes to its next value instead, and is noted as changed. Nothing
/// else changes.
pub proof fn law_editing_begins_at_the_end(e: EditorView)
    requires
        e.has_focus(),
        e.focused().value.text().len() <= usize::MAX,
    ensures
        ({
            let s = e.editing_started();
            let f = e.focused();
            let g = s.fields[e.focused_field as int];
            &&& differs_in_focus(s, e)
            &&& f.value.editable() ==> g == (FieldView {
                editing: true,
                cursor: f.value.text().len() as usize,
                ..f
            }) && s == (EditorView { fields: s.fields, ..e })
            &&& !f.value.editable() ==> g == (FieldView { value: f.value.toggled(), ..f }) && s == (
            EditorView { fields: s.fields, unsaved_changes: true, ..e }) && s == e.toggled()
            &&& f.value.editable() ==> e.toggled() == e
        }),
{
}

/// A typed character stands at the cursor, before what was behind it, and the
/// cursor goes one further; in the name where that is typed, else in the field
/// in focus, and nowhere else. Where nothing is typed in, nothing changes.
pub proof fn law_typing_puts_a_character_in(e: EditorView, c: char)
    ensures
        ({
            let p = e.pushed(c);
            let f = e.focused();
            let g = p.fields[e.focused_field as int];
            &&& e.daemon_id_editing && e.daemon_id_cursor <= e.daemon_id.len()
                && e.daemon_id_cursor < usize::MAX ==> p == (EditorView {
                daemon_id: e.daemon_id.take(e.daemon_id_cursor as int).push(c) + e.daemon_id.skip(
                    e.daemon_id_cursor as int,
                ),
                daemon_id_cursor: (e.daemon_id_cursor + 1) as usize,
                unsaved_changes: true,
                ..e
            })
            &&& !e.daemon_id_editing && e.has_focus() && f.editing ==> differs_in_focus(p, e) && p
                == (EditorView { fields: p.fields, unsaved_changes: true, ..e })
            &&& !e.daemon_id_editing && e.has_focus() && f.editing && f.cursor
                <= f.value.text().len() && f.cursor < usize::MAX ==> g.cursor == f.cursor + 1
                && g.value == f.value.with_text(
                f.value.text().take(f.cursor as int).push(c) + f.value.text().skip(f.cursor as int),
            )
            &&& !e.daemon_id_editing && !(e.has_focus() && f.editing) ==> p == e
        }),
{
    let p = e.pushed(c);
    let f = e.focused();
    if e.daemon_id_editing && e.daemon_id_cursor <= e.daemon_id.len() {
        assert(p.daemon_id =~= e.daemon_id.take(e.daemon_id_cursor as int).push(c)
            + e.daemon_id.skip(e.daemon_id_cursor as int));
    }
    if !e.daemon_id_editing && e.has_focus() && f.editing && f.cursor <= f.value.text().len() {
        let s = f.value.text();
        assert(with_char(s, f.cursor, c) =~= s.take(f.cursor as int).push(c) + s.skip(
            f.cursor as int,
        ));
    }
}

/// Taking back removes the character before the cursor, and the cursor goes one
/// back; behind a number that has to be there it goes to the end. Where there
/// is nothing before the cursor, nothing changes.
pub proof fn law_taking_back_removes_a_character(e: EditorView)
    ensures
        ({
            let p = e.popped();
            let f = e.focused();
            let g = p.fields[e.focused_field as int];
            let in_name = e.daemon_id_editing && e.daemon_id_cursor > 0;
            let in_field = !in_name && e.has_focus() && f.editing && f.cursor > 0;
            &&& in_name && e.daemon_id_cursor <= e.daemon_id.len() ==> p == (EditorView {
                daemon_id: e.daemon_id.take(e.daemon_id_cursor - 1) + e.daemon_id.skip(
                    e.daemon_id_cursor as int,
                ),
                daemon_id_cursor: (e.daemon_id_cursor - 1) as usize,
                unsaved_changes: true,
                ..e
            })
            &&& in_field ==> differs_in_focus(p, e) && p == (EditorView {
                fields: p.fields,
                unsaved_changes: true,
                ..e
            })
            &&& in_field && f.cursor <= f.value.text().len() ==> g.value == f.value.with_text(
                f.value.text().take(f.cursor - 1) + f.value.text().skip(f.cursor as int),
            )
            &&& in_field && f.value !is Number ==> g.cursor == f.cursor - 1
            &&& in_field && f.value is Number ==> g.cursor == g.value.text().len() as usize
            &&& !in_name && !in_field ==> p == e
        }),
{
    let p = e.popped();
    let f = e.focused();
    if e.pops_name() && e.daemon_id_cursor <= e.daemon_id.len() {
        assert(p.daemon_id =~= e.daemon_id.take(e.daemon_id_cursor - 1) + e.daemon_id.skip(
            e.daemon_id_cursor as int,
        ));
    }
    if e.pops_field() && f.cursor <= f.value.text().len() {
        let s = f.value.text();
        assert(s.remove(f.cursor - 1) =~= s.take(f.cursor - 1) + s.skip(f.cursor as int));
    }
}

/// What is wrong with a form: a name that is missing or holds other characters
/// than letters, digits, hyphens and underscores, a missing command, a
/// readiness port of zero, and a readiness address that is not one of the web.
/// Nothing else is, and each is marked in its place.
pub proof fn law_forms_are_checked(e: EditorView, i: int)
    requires
        0 <= i < e.fields.len(),
    ensures
        ({
            let c = e.checked();
            let f = e.fields[i];
            let no_command = f.name == "run"@ && f.value is Text && f.value->Text_0.len() == 0;
            let no_port = f.name == "ready_port"@ && f.value == ValueView::OptionalPort(Some(0u16));
            let no_url = f.name == "ready_http"@ && f.value is OptionalText
                && f.value->OptionalText_0 is Some && !text::has_prefix(
                f.value->OptionalText_0->0,
                "http://"@,
            ) && !text::has_prefix(f.value->OptionalText_0->0, "https://"@);
            &&& c.fields.len() == e.fields.len()
            &&& c.fields[i] == (FieldView { error: c.fields[i].error, ..f })
            &&& no_command ==> c.fields[i].error == Some("Required"@)
            &&& no_port ==> c.fields[i].error == Some("Port must be 1-65535"@)
            &&& no_url ==> c.fields[i].error == Some("Must start with http:// or https://"@)
            &&& !no_command && !no_port && !no_url ==> c.fields[i].error is None
            &&& e.daemon_id.len() == 0 ==> c.daemon_id_error == Some("Name is required"@)
            &&& e.daemon_id.len() > 0 && (forall|k: int|
                0 <= k < e.daemon_id.len() ==> text::alphanumeric(#[trigger] e.daemon_id[k])
                    || e.daemon_id[k] == '-' || e.daemon_id[k] == '_') ==> c.daemon_id_error is None
            &&& e.daemon_id.len() > 0 && !(forall|k: int|
                0 <= k < e.daemon_id.len() ==> text::alphanumeric(#[trigger] e.daemon_id[k])
                    || e.daemon_id[k] == '-' || e.daemon_id[k] == '_') ==> c.daemon_id_error
                == Some("Only letters, digits, hyphens, and underscores allowed"@)
            &&& c == (EditorView {
                daemon_id_error: c.daemon_id_error,
                fields: c.fields,
                ..e
            })
        }),
{
    let name = e.daemon_id;
    if exists|k: int| 0 <= k < name.len() && !name_char(#[trigger] name[k]) {
        let k = choose|k: int| 0 <= k < name.len() && !name_char(#[trigger] name[k]);
        assert(!(text::alphanumeric(name[k]) || name[k] == '-' || name[k] == '_'));
    } else {
        assert forall|k: int| 0 <= k < name.len() implies text::alphanumeric(#[trigger] name[k])
            || name[k] == '-' || name[k] == '_' by {
            assert(name_char(name[k]));
        }
    }
}

/// A form is valid exactly if checking marks nothing.
pub proof fn law_valid_means_nothing_is_marked(e: EditorView)
    ensures
        e.valid() <==> e.checked().daemon_id_error is None && forall|i: int|
            0 <= i < e.fields.len() ==> (#[trigger] e.checked().fields[i]).error is None,
{
    let c = e.checked();
    if e.valid() {
        assert forall|i: int| 0 <= i < e.fields.len() implies (#[trigger] c.fields[i]).error
            is None by {
            assert(field_error(e.fields[i]) is None);
        }
    }
    if c.daemon_id_error is None && (forall|i: int|
        0 <= i < e.fields.len() ==> (#[trigger] c.fields[i]).error is None) {
        assert forall|i: int| 0 <= i < e.fields.len() implies field_error(
            #[trigger] e.fields[i],
        ) is None by {
            assert(c.fields[i].error is None);
        }
    }
}

/// Something is typed in exactly if the name is, or the field in focus.
pub proof fn law_when_something_is_typed_in(e: EditorView)
    ensures
        e.is_editing() <==> e.daemon_id_editing || (e.focused_field < e.fields.len()
            && e.fields[e.focused_field as int].editing),
        !e.next().is_editing() || !e.daemon_id_editing,
        ({
            let stopped = EditorView { daemon_id_editing: false, ..e.field_left() };
            &&& !stopped.is_editing()
            &&& e.has_focus() ==> stopped.fields[e.focused_field as int] == (FieldView {
                editing: false,
                ..e.focused()
            })
            &&& differs_in_focus(stopped, e)
            &&& stopped == (EditorView {
                daemon_id_editing: false,
                fields: stopped.fields,
                ..e
            })
        }),
{
}

/// Every part of the editor is seen.
pub proof fn law_editors_are_seen_whole(e: EditorState)
    ensures
        e.mode is Create ==> e@.mode == ModeView::Create,
        e.mode matches EditMode::Edit { original_id } ==> e@.mode == (ModeView::Edit {
            original_id: original_id@,
        }),
        e@.daemon_id == e.daemon_id@,
        e@.daemon_id_editing == e.daemon_id_editing,
        e@.daemon_id_cursor == e.daemon_id_cursor,
        e.daemon_id_error is Some ==> e@.daemon_id_error == Some(e.daemon_id_error->0@),
        e.daemon_id_error is None ==> e@.daemon_id_error is None,
        e@.fields == e.fields@.map_values(|f: FormField| f@),
        e@.focused_field == e.focused_field,
        e@.config_path == e.config_path@,
        e@.unsaved_changes == e.unsaved_changes,
        e@.scroll_offset == e.scroll_offset,
        e.preserved_ready_cmd is Some ==> e@.preserved_ready_cmd == Some(
            e.preserved_ready_cmd->0@,
        ),
        e.preserved_ready_cmd is None ==> e@.preserved_ready_cmd is None,
        e.preserved_ready_http_status is Some ==> e@.preserved_ready_http_status == Some(
            e.preserved_ready_http_status->0@,
        ),
        e.preserved_ready_http_status is None ==> e@.preserved_ready_http_status is None,
{
}

/// A name of ASCII characters is wrong where it is empty or holds another
/// character than a letter, a digit, a hyphen or an underscore.
pub proof fn law_ascii_names(name: Seq<char>)
    ensures
        name.len() == 0 ==> ascii_name_error(name) == Some("Name is required"@),
        name.len() > 0 && (forall|i: int|
            0 <= i < name.len() ==> {
                let c = #[trigger] name[i] as int;
                48 <= c <= 57 || 65 <= c <= 90 || 97 <= c <= 122 || c == 45 || c == 95
            }) ==> ascii_name_error(name) is None,
        name.len() > 0 && (exists|i: int|
            0 <= i < name.len() && {
                let c = #[trigger] name[i] as int;
                !(48 <= c <= 57 || 65 <= c <= 90 || 97 <= c <= 122 || c == 45 || c == 95)
            }) ==> ascii_name_error(name) == Some(
            "Only letters, digits, hyphens, and underscores allowed"@,
        ),
{
    if exists|i: int|
        0 <= i < name.len() && {
            let c = #[trigger] name[i] as int;
            !(48 <= c <= 57 || 65 <= c <= 90 || 97 <= c <= 122 || c == 45 || c == 95)
        } {
        let i = choose|i: int|
            0 <= i < name.len() && {
                let c = #[trigger] name[i] as int;
                !(48 <= c <= 57 || 65 <= c <= 90 || 97 <= c <= 122 || c == 45 || c == 95)
            };
        assert(!ascii_name_char(name[i]));
    }
    if exists|i: int| 0 <= i < name.len() && !ascii_name_char(#[trigger] name[i]) {
        let i = choose|i: int| 0 <= i < name.len() && !ascii_name_char(#[trigger] name[i]);
        let c = name[i] as int;
        assert(!(48 <= c <= 57 || 65 <= c <= 90 || 97 <= c <= 122 || c == 45 || c == 95));
    }
}

/// A cursor behind the end of a text counts as one at the end.
pub proof fn law_typing_behind_the_end(e: EditorView, c: char)
    ensures
        e.daemon_id_editing && e.daemon_id_cursor > e.daemon_id.len() ==> e.pushed(c).daemon_id
            == e.daemon_id.push(c),
        !e.daemon_id_editing && e.has_focus() && e.focused().editing && e.focused().cursor
            > e.focused().value.text().len() ==> e.pushed(c).fields[e.focused_field as int].value
            == e.focused().value.with_text(e.focused().value.text().push(c)),
{
    if e.daemon_id_editing && e.daemon_id_cursor > e.daemon_id.len() {
        assert(e.pushed(c).daemon_id =~= e.daemon_id.push(c));
    }
    let f = e.focused();
    let s = f.value.text();
    if f.cursor > s.len() {
        assert(with_char(s, f.cursor, c) =~= s.push(c));
    }
}

} // verus!
