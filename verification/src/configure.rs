//! Adding, changing and deleting daemons in configuration files.
use vstd::prelude::*;

use crate::app::{App, ConfigFileSelector};
use crate::app;
use crate::config::{ConfigView, PitchforkToml};
use crate::daemon::{DaemonId, IdView};
use crate::editor::{EditMode, EditorState, EditorView, ModeView};
use crate::editor;
use crate::lists;
use crate::paths::{join_path, same_path};
use crate::paths;
use crate::text;
use crate::text::contains_char;

verus! {

// ---------------------------------------------------------------------------
// Choosing a file
// ---------------------------------------------------------------------------

/// Whether one of the texts is the path.
pub open spec fn has_path(files: Seq<Seq<char>>, path: Seq<char>) -> bool {
    exists|i: int|
        0 <= i < files.len() && paths::components(#[trigger] files[i]) == paths::components(path)
}

/// The project file of the current directory.
pub open spec fn local_file(cwd: Seq<char>) -> Seq<char> {
    paths::joined_path(cwd, "pitchfork.toml"@)
}

/// The files to choose from: those that exist, and that of the current
/// directory where it is not among them.
pub open spec fn config_files(existing: Seq<Seq<char>>, cwd: Seq<char>) -> Seq<Seq<char>> {
    if has_path(existing, local_file(cwd)) {
        existing
    } else {
        existing.push(local_file(cwd))
    }
}

impl App {
    /// The configuration files to choose from.
    pub fn get_config_files(&self, existing: Vec<String>, cwd: &str) -> (r: Vec<String>)
        ensures
            text::views(r@) == config_files(text::views(existing@), cwd@),
    {
        let here = join_path(cwd, "pitchfork.toml");
        let ghost all = text::views(existing@);
        let mut i: usize = 0;
        while i < existing.len()
            invariant
                i <= existing@.len(),
                all == text::views(existing@),
                here@ == local_file(cwd@),
                forall|k: int|
                    0 <= k < i ==> paths::components(#[trigger] all[k]) != paths::components(here@),
            decreases existing@.len() - i,
        {
            if same_path(existing[i].as_str(), here.as_str()) {
                assert(paths::components(all[i as int]) == paths::components(here@));
                return existing;
            }
            i += 1;
        }
        let mut files = existing;
        proof {
            assert(text::views(files@.push(here)) =~= all.push(here@));
        }
        files.push(here);
        files
    }

    /// Lets the user choose the file of a new daemon.
    pub fn open_file_selector(&mut self, existing: Vec<String>, cwd: &str)
        ensures
            final(self).file_selector matches Some(s) && text::views(s.files@) == config_files(
                text::views(existing@),
                cwd@,
            ) && s.selected == 0,
            *final(self) == (App {
                file_selector: final(self).file_selector,
                view: app::View::ConfigFileSelect,
                ..*old(self)
            }),
    {
        let files = self.get_config_files(existing, cwd);
        self.file_selector = Some(ConfigFileSelector { files, selected: 0 });
        self.view = app::View::ConfigFileSelect;
    }

    // -----------------------------------------------------------------------
    // Opening and closing the editor
    // -----------------------------------------------------------------------

    /// Opens the editor for a new daemon in the file.
    pub fn open_editor_create(&mut self, config_path: String)
        ensures
            final(self).editor_state matches Some(e) && e@ == editor::opened(
                ModeView::Create,
                Seq::empty(),
                true,
                crate::config::empty_config(),
                config_path@,
            ),
            *final(self) == (App {
                editor_state: final(self).editor_state,
                file_selector: None,
                view: app::View::ConfigEditor,
                ..*old(self)
            }),
    {
        self.editor_state = Some(EditorState::new_create(config_path));
        self.file_selector = None;
        self.view = app::View::ConfigEditor;
    }

    /// Opens the editor for a daemon that is there. `config` holds all
    /// configured daemons, or why they could not be read.
    pub fn open_editor_edit(
        &mut self,
        daemon_id: &DaemonId,
        config: &Result<PitchforkToml, String>,
        cwd: &str,
        now: u128,
    )
        ensures
            match config {
                Err(e) => final(self).tells(
                    *old(self),
                    "Failed to load config: "@ + e@,
                    now,
                ),
                Ok(config) => match lists::lookup(config@, daemon_id@) {
                    None => final(self).tells(
                        *old(self),
                        "Daemon '"@ + daemon_id@.qualified() + "' not found in config"@,
                        now,
                    ),
                    Some(section) => {
                        &&& final(self).editor_state matches Some(e) && e@ == editor::opened(
                            (ModeView::Edit { original_id: daemon_id@.qualified() }),
                            daemon_id@.qualified(),
                            false,
                            section,
                            match section.path {
                                Some(path) => path,
                                None => local_file(cwd@),
                            },
                        )
                        &&& *final(self) == (App {
                            editor_state: final(self).editor_state,
                            view: app::View::ConfigEditor,
                            ..*old(self)
                        })
                    },
                },
            },
    {
        let config = match config {
            Ok(config) => config,
            Err(e) => {
                let mut msg = "Failed to load config: ".to_owned();
                msg.append(e.as_str());
                self.set_message(msg, now);
                return;
            },
        };
        match config.get(daemon_id) {
            Some(section) => {
                let path = match &section.path {
                    Some(path) => path.clone(),
                    None => join_path(cwd, "pitchfork.toml"),
                };
                self.editor_state =
                Some(EditorState::new_edit(daemon_id.qualified(), section, path));
                self.view = app::View::ConfigEditor;
            },
            None => {
                let mut msg = "Daemon '".to_owned();
                msg.append(daemon_id.qualified().as_str());
                msg.append("' not found in config");
                self.set_message(msg, now);
            },
        }
    }

    /// Whether the state is the one before but for a message that was set.
    pub open spec fn tells(self, before: App, msg: Seq<char>, now: u128) -> bool {
        &&& self.message matches Some(m) && m@ == msg
        &&& self == (App { message: self.message, message_time: Some(now), ..before })
    }

    pub fn close_editor(&mut self)
        ensures
            *final(self) == (App {
                editor_state: None,
                file_selector: None,
                view: app::View::Dashboard,
                ..*old(self)
            }),
    {
        self.editor_state = None;
        self.file_selector = None;
        self.view = app::View::Dashboard;
    }
}

// ---------------------------------------------------------------------------
// Saving
// ---------------------------------------------------------------------------

/// What saving needs besides the form.
pub struct SaveInput {
    /// The daemon that the name in the form stands for, or why it stands for none.
    pub daemon_id: Result<DaemonId, String>,
    /// The same of the name that the daemon had when the editor was opened.
    pub original_id: Result<DaemonId, String>,
    /// The content of the file, or why it could not be read.
    pub config: Result<PitchforkToml, String>,
    /// The daemons that the names of dependencies stand for.
    pub known: Vec<(String, DaemonId)>,
}

/// What saving comes to.
pub enum SaveStep {
    /// It fails.
    Fails(Seq<char>),
    /// It does not happen, and the user is told why.
    Tells(Seq<char>),
    /// The file gets this content.
    Writes(Seq<(IdView, ConfigView)>),
}

pub open spec fn id_or_error(id: Result<DaemonId, String>) -> Result<IdView, Seq<char>> {
    match id {
        Ok(id) => Ok(id@),
        Err(e) => Err(e@),
    }
}

pub open spec fn config_or_error(
    config: Result<PitchforkToml, String>,
) -> Result<Seq<(IdView, ConfigView)>, Seq<char>> {
    match config {
        Ok(config) => Ok(config@),
        Err(e) => Err(e@),
    }
}

/// What saving a form that was found valid comes to: a daemon never takes the
/// place of another one, and a daemon that got another name leaves its old place.
pub open spec fn save_valid(
    mode: ModeView,
    section: ConfigView,
    daemon_id: Result<IdView, Seq<char>>,
    original_id: Result<IdView, Seq<char>>,
    config: Result<Seq<(IdView, ConfigView)>, Seq<char>>,
) -> SaveStep {
    match (daemon_id, config) {
        (Err(e), _) => SaveStep::Fails("Invalid daemon ID: "@ + e),
        (_, Err(e)) => SaveStep::Fails(e),
        (Ok(id), Ok(config)) => match (mode, original_id) {
            (ModeView::Edit { .. }, Err(e)) => SaveStep::Fails(
                "Invalid original daemon ID: "@ + e,
            ),
            (ModeView::Edit { .. }, Ok(original)) => if original == id {
                SaveStep::Writes(lists::put(config, id, section))
            } else if lists::keys(config).contains(id) {
                SaveStep::Tells(taken_message(id))
            } else {
                SaveStep::Writes(lists::put(lists::without_key(config, original), id, section))
            },
            (ModeView::Create, _) => if lists::keys(config).contains(id) {
                SaveStep::Tells(taken_message(id))
            } else {
                SaveStep::Writes(lists::put(config, id, section))
            },
        },
    }
}

pub open spec fn taken_message(id: IdView) -> Seq<char> {
    "A daemon named '"@ + id.qualified() + "' already exists"@
}

/// What saving the form comes to.
pub open spec fn save_step(e: EditorView, input: SaveInput) -> SaveStep {
    if !e.valid() {
        SaveStep::Tells("Please fix validation errors before saving"@)
    } else {
        save_valid(
            e.mode,
            e.checked().section(editor::name_views(input.known@)),
            id_or_error(input.daemon_id),
            id_or_error(input.original_id),
            config_or_error(input.config),
        )
    }
}

fn prefixed(prefix: &str, text: &str) -> (r: String)
    ensures
        r@ == prefix@ + text@,
{
    let mut out = prefix.to_owned();
    out.append(text);
    out
}

/// Puts a section into the content of a file.
fn place_section(
    mode: &EditMode,
    section: crate::config::PitchforkTomlDaemon,
    daemon_id: Result<DaemonId, String>,
    original_id: Result<DaemonId, String>,
    config: Result<PitchforkToml, String>,
) -> (r: Result<Result<PitchforkToml, String>, String>)
    ensures
        match save_valid(
            mode@,
            section@,
            id_or_error(daemon_id),
            id_or_error(original_id),
            config_or_error(config),
        ) {
            SaveStep::Fails(e) => r matches Err(m) && m@ == e,
            SaveStep::Tells(t) => r matches Ok(Err(m)) && m@ == t,
            SaveStep::Writes(c) => r matches Ok(Ok(written)) && written@ == c,
        },
{
    let id = match daemon_id {
        Ok(id) => id,
        Err(e) => {
            return Err(prefixed("Invalid daemon ID: ", e.as_str()));
        },
    };
    let mut content = match config {
        Ok(content) => content,
        Err(e) => {
            return Err(e);
        },
    };
    let renamed: Option<DaemonId> = match mode {
        EditMode::Create => None,
        EditMode::Edit { original_id: _ } => match original_id {
            Err(e) => {
                return Err(prefixed("Invalid original daemon ID: ", e.as_str()));
            },
            Ok(original) => {
                if original.same(&id) {
                    content.insert(&id, section);
                    return Ok(Ok(content));
                }
                Some(original)
            },
        },
    };
    if content.contains(&id) {
        let mut msg = prefixed("A daemon named '", id.qualified().as_str());
        msg.append("' already exists");
        return Ok(Err(msg));
    }
    match renamed {
        Some(original) => {
            let _ = content.remove(&original);
        },
        None => {},
    }
    content.insert(&id, section);
    Ok(Ok(content))
}

impl App {
    /// Checks the form and works out what the file is to hold: `Ok(Some(..))`
    /// is to be written, `Ok(None)` means that the user was told why not.
    pub fn save_editor_config(&mut self, input: SaveInput, now: u128) -> (r: Result<
        Option<PitchforkToml>,
        String,
    >)
        ensures
            match old(self).editor_state {
                None => r matches Err(m) && m@ == "No editor state"@ && *final(self) == *old(self),
                Some(before) => {
                    let checked = App { editor_state: final(self).editor_state, ..*old(self) };
                    &&& final(self).editor_state matches Some(e) && e@ == before@.checked()
                    &&& match save_step(before@, input) {
                        SaveStep::Fails(e) => r matches Err(m) && m@ == e && *final(self)
                            == checked,
                        SaveStep::Tells(t) => r matches Ok(None) && final(self).tells(
                            checked,
                            t,
                            now,
                        ),
                        SaveStep::Writes(c) => r matches Ok(Some(written)) && written@ == c
                            && *final(self) == checked,
                    }
                },
            },
    {
        let mut taken: Option<EditorState> = None;
        std::mem::swap(&mut taken, &mut self.editor_state);
        let mut e = match taken {
            Some(e) => e,
            None => {
                return Err("No editor state".to_owned());
            },
        };
        if !e.validate() {
            self.editor_state = Some(e);
            self.set_message("Please fix validation errors before saving".to_owned(), now);
            return Ok(None);
        }
        let section = e.to_daemon_config(&input.known);
        let placed = place_section(
            &e.mode,
            section,
            input.daemon_id,
            input.original_id,
            input.config,
        );
        self.editor_state = Some(e);
        match placed {
            Err(m) => Err(m),
            Ok(Err(m)) => {
                self.set_message(m, now);
                Ok(None)
            },
            Ok(Ok(content)) => Ok(Some(content)),
        }
    }

    /// Notes that the file was written, or why it was not.
    pub fn finish_save(&mut self, written: Result<(), String>, now: u128) -> (r: Result<
        bool,
        String,
    >)
        ensures
            match (written, old(self).editor_state) {
                (Err(e), _) => r matches Err(m) && m@ == e@ && *final(self) == *old(self),
                (Ok(_), None) => r matches Err(m) && m@ == "No editor state"@ && *final(self)
                    == *old(self),
                (Ok(_), Some(before)) => {
                    &&& r matches Ok(true)
                    &&& final(self).editor_state matches Some(e) && e@ == (EditorView {
                        unsaved_changes: false,
                        ..before@
                    })
                    &&& final(self).tells(
                        (App { editor_state: final(self).editor_state, ..*old(self) }),
                        "Saved daemon '"@ + before@.daemon_id + "'"@,
                        now,
                    )
                },
            },
    {
        match written {
            Err(e) => {
                return Err(e);
            },
            Ok(_) => {},
        }
        let mut taken: Option<EditorState> = None;
        std::mem::swap(&mut taken, &mut self.editor_state);
        let mut e = match taken {
            Some(e) => e,
            None => {
                return Err("No editor state".to_owned());
            },
        };
        e.unsaved_changes = false;
        let mut msg = prefixed("Saved daemon '", e.daemon_id.as_str());
        msg.append("'");
        self.editor_state = Some(e);
        self.set_message(msg, now);
        Ok(true)
    }

    /// Whether the name of a daemon says its namespace too. Where it does not,
    /// the daemon belongs to the namespace of the file.
    pub fn is_qualified(id: &str) -> (r: bool)
        ensures
            r == id@.contains('/'),
    {
        contains_char(id, '/')
    }

    /// Takes a daemon out of the content of a file: `Ok(Some(..))` is to be
    /// written, `Ok(None)` means that the daemon is not in there.
    pub fn delete_daemon_from_config(
        config: Result<PitchforkToml, String>,
        daemon_id: Result<DaemonId, String>,
    ) -> (r: Result<Option<PitchforkToml>, String>)
        ensures
            match (config_or_error(config), id_or_error(daemon_id)) {
                (Err(e), _) => r matches Err(m) && m@ == e,
                (_, Err(e)) => r matches Err(m) && m@ == e,
                (Ok(before), Ok(id)) => if lists::keys(before).contains(id) {
                    r matches Ok(Some(after)) && after@ == lists::without_key(before, id)
                } else {
                    r matches Ok(None)
                },
            },
    {
        let mut content = match config {
            Ok(content) => content,
            Err(e) => {
                return Err(e);
            },
        };
        let id = match daemon_id {
            Ok(id) => id,
            Err(e) => {
                return Err(e);
            },
        };
        if content.remove(&id) {
            Ok(Some(content))
        } else {
            Ok(None)
        }
    }
}

// ---------------------------------------------------------------------------
// Laws
// ---------------------------------------------------------------------------

/// What is written holds the form's section for the daemon. Every other daemon
/// keeps its section, except that the name the daemon had before is gone.
pub proof fn law_saving_keeps_the_others(
    mode: ModeView,
    section: ConfigView,
    id: IdView,
    original: IdView,
    config: Seq<(IdView, ConfigView)>,
    other: IdView,
)
    requires
        save_valid(mode, section, Ok(id), Ok(original), Ok(config)) is Writes,
    ensures
        ({
            let written = save_valid(mode, section, Ok(id), Ok(original), Ok(config))->Writes_0;
            &&& lists::lookup(written, id) == Some(section)
            &&& other != id && (mode is Create || other != original) ==> lists::lookup(
                written,
                other,
            ) == lists::lookup(config, other)
            &&& mode is Edit && original != id ==> lists::lookup(written, original) is None
        }),
{
    let base = if mode is Edit && original != id {
        lists::without_key(config, original)
    } else {
        config
    };
    lists::lemma_lookup_put(base, id, section, id);
    lists::lemma_lookup_put(base, id, section, other);
    lists::lemma_lookup_put(base, id, section, original);
    lists::lemma_lookup_without(config, original, other);
    lists::lemma_lookup_without(config, original, original);
}

/// Saving never takes the place of a daemon other than the one that is edited.
pub proof fn law_saving_never_replaces_another(
    mode: ModeView,
    section: ConfigView,
    id: IdView,
    original: IdView,
    config: Seq<(IdView, ConfigView)>,
)
    requires
        lists::keys(config).contains(id),
        mode is Create || original != id,
    ensures
        save_valid(mode, section, Ok(id), Ok(original), Ok(config)) == SaveStep::Tells(
            taken_message(id),
        ),
{
}

/// Deleting a daemon takes it out and leaves every other one as it was; what
/// was just saved as new and is deleted again was never there.
pub proof fn law_deleting_keeps_the_others(
    config: Seq<(IdView, ConfigView)>,
    id: IdView,
    section: ConfigView,
    other: IdView,
)
    ensures
        lists::lookup(lists::without_key(config, id), id) is None,
        other != id ==> lists::lookup(lists::without_key(config, id), other) == lists::lookup(
            config,
            other,
        ),
        !lists::keys(config).contains(id) ==> lists::without_key(
            lists::put(config, id, section),
            id,
        ) == config,
{
    lists::lemma_lookup_without(config, id, id);
    lists::lemma_lookup_without(config, id, other);
    if !lists::keys(config).contains(id) {
        reveal(Seq::filter);
        let keep = |e: (IdView, ConfigView)| e.0 != id;
        let grown = config.push((id, section));
        assert(grown.drop_last() =~= config);
        lemma_nothing_to_drop(config, id);
    }
}

proof fn lemma_nothing_to_drop(config: Seq<(IdView, ConfigView)>, id: IdView)
    requires
        !lists::keys(config).contains(id),
    ensures
        lists::without_key(config, id) == config,
    decreases config.len(),
{
    reveal(Seq::filter);
    if config.len() > 0 {
        let rest = config.drop_last();
        assert(lists::keys(config) =~= lists::keys(rest).push(config.last().0));
        lists::lemma_push_contains(lists::keys(rest), config.last().0, id);
        lemma_nothing_to_drop(rest, id);
        assert(config =~= rest.push(config.last()));
    }
}

/// Whether a file holds a section for the daemon.
pub open spec fn has_section(config: Seq<(IdView, ConfigView)>, id: IdView) -> bool {
    exists|i: int| 0 <= i < config.len() && (#[trigger] config[i]).0 == id
}

proof fn lemma_has_section(config: Seq<(IdView, ConfigView)>, id: IdView)
    ensures
        lists::keys(config).contains(id) <==> has_section(config, id),
{
    let keys = lists::keys(config);
    if keys.contains(id) {
        let i = choose|i: int| 0 <= i < keys.len() && keys[i] == id;
        assert(config[i].0 == id);
    }
    if has_section(config, id) {
        let i = choose|i: int| 0 <= i < config.len() && (#[trigger] config[i]).0 == id;
        assert(keys[i] == id);
    }
}

/// A valid form is written unless a name or the file cannot be read, or another
/// daemon has the name; only the last is told as a message.
pub proof fn law_valid_forms_are_written(
    mode: ModeView,
    section: ConfigView,
    daemon_id: Result<IdView, Seq<char>>,
    original_id: Result<IdView, Seq<char>>,
    config: Result<Seq<(IdView, ConfigView)>, Seq<char>>,
)
    ensures
        ({
            let step = save_valid(mode, section, daemon_id, original_id, config);
            let readable = daemon_id is Ok && config is Ok && (mode is Create || original_id is Ok);
            let own = mode is Edit && original_id is Ok && daemon_id is Ok && original_id->Ok_0
                == daemon_id->Ok_0;
            &&& step is Fails <==> !readable
            &&& step is Tells <==> readable && !own && has_section(config->Ok_0, daemon_id->Ok_0)
            &&& step is Writes <==> readable && (own || !has_section(
                config->Ok_0,
                daemon_id->Ok_0,
            ))
            &&& step matches SaveStep::Tells(t) ==> t == "A daemon named '"@ + (
            daemon_id->Ok_0.namespace + "/"@ + daemon_id->Ok_0.name) + "' already exists"@
            &&& daemon_id matches Err(e) ==> step == SaveStep::Fails("Invalid daemon ID: "@ + e)
            &&& daemon_id is Ok && config is Err ==> step == SaveStep::Fails(config->Err_0)
            &&& daemon_id is Ok && config is Ok && mode is Edit && original_id is Err ==> step
                == SaveStep::Fails("Invalid original daemon ID: "@ + original_id->Err_0)
        }),
{
    if let (Ok(id), Ok(c)) = (daemon_id, config) {
        lemma_has_section(c, id);
    }
}

/// A section that is there is changed in its place, and another becomes the
/// last; the other sections keep their order, but that the one under the name
/// before goes.
pub proof fn law_saving_keeps_the_order(
    mode: ModeView,
    section: ConfigView,
    id: IdView,
    original: IdView,
    config: Seq<(IdView, ConfigView)>,
)
    requires
        save_valid(mode, section, Ok(id), Ok(original), Ok(config)) is Writes,
    ensures
        ({
            let written = save_valid(mode, section, Ok(id), Ok(original), Ok(config))->Writes_0;
            &&& has_section(config, id) ==> written.len() == config.len() && forall|i: int|
                0 <= i < config.len() ==> (#[trigger] written[i]) == (if config[i].0 == id {
                    (id, section)
                } else {
                    config[i]
                })
            &&& !has_section(config, id) && (mode is Create || original == id) ==> written
                == config.push((id, section))
            &&& mode is Edit && original != id ==> written == config.filter(
                |e: (IdView, ConfigView)| e.0 != original,
            ).push((id, section))
        }),
{
    lemma_has_section(config, id);
    if mode is Edit && original != id {
        let keep = |e: (IdView, ConfigView)| e.0 != original;
        let rest = config.filter(keep);
        lemma_has_section(rest, id);
        if has_section(rest, id) {
            let i = choose|i: int| 0 <= i < rest.len() && (#[trigger] rest[i]).0 == id;
            assert(rest.contains(rest[i]));
            lists::lemma_filter_members(config, keep, rest[i]);
            let k = choose|k: int| 0 <= k < config.len() && config[k] == rest[i];
            assert(config[k].0 == id);
        }
        lists::lemma_without_is_filter(config, original, keep);
        assert(!has_section(config, id));
    } else {
        let written = lists::put(config, id, section);
        assert(save_valid(mode, section, Ok(id), Ok(original), Ok(config)) == SaveStep::Writes(
            written,
        ));
    }
}

/// An invalid form is never written, whatever else is given; a valid one is
/// written as the section that it makes.
pub proof fn law_only_valid_forms_are_saved(e: EditorView, input: SaveInput)
    ensures
        !e.valid() ==> save_step(e, input) == SaveStep::Tells(
            "Please fix validation errors before saving"@,
        ),
        e.valid() ==> save_step(e, input) == save_valid(
            e.mode,
            e.checked().section(editor::name_views(input.known@)),
            match input.daemon_id {
                Ok(id) => Ok(id@),
                Err(m) => Err(m@),
            },
            match input.original_id {
                Ok(id) => Ok(id@),
                Err(m) => Err(m@),
            },
            match input.config {
                Ok(config) => Ok(config@),
                Err(m) => Err(m@),
            },
        ),
        save_step(e, input) is Writes ==> e.valid() && input.daemon_id is Ok && lists::lookup(
            save_step(e, input)->Writes_0,
            input.daemon_id->Ok_0@,
        ) == Some(e.checked().section(editor::name_views(input.known@))),
{
    if save_step(e, input) is Writes {
        let section = e.checked().section(editor::name_views(input.known@));
        let id = input.daemon_id->Ok_0@;
        let config = input.config->Ok_0@;
        let original = if input.original_id is Ok {
            input.original_id->Ok_0@
        } else {
            id
        };
        lists::lemma_lookup_put(config, id, section, id);
        lists::lemma_lookup_put(lists::without_key(config, original), id, section, id);
    }
}

/// The files to choose from: all that exist, in their order, and behind them
/// that of the current directory exactly if it is not one of them.
pub proof fn law_the_local_file_can_be_chosen(existing: Seq<Seq<char>>, cwd: Seq<char>)
    ensures
        ({
            let files = config_files(existing, cwd);
            let here = paths::joined_path(cwd, "pitchfork.toml"@);
            &&& existing.len() <= files.len() <= existing.len() + 1
            &&& files.take(existing.len() as int) == existing
            &&& files.len() > existing.len() ==> files.last() == here
            &&& exists|i: int|
                0 <= i < files.len() && paths::components(#[trigger] files[i])
                    == paths::components(here)
            &&& files.len() == existing.len() <==> exists|i: int|
                0 <= i < existing.len() && paths::components(#[trigger] existing[i])
                    == paths::components(here)
        }),
{
    let files = config_files(existing, cwd);
    let here = local_file(cwd);
    assert(files.take(existing.len() as int) =~= existing);
    if has_path(existing, here) {
        let i = choose|i: int|
            0 <= i < existing.len() && paths::components(#[trigger] existing[i])
                == paths::components(here);
        assert(paths::components(files[i]) == paths::components(here));
    } else {
        assert(paths::components(files[existing.len() as int]) == paths::components(here));
    }
}

} // verus!
