//! What is logged, where, and how it looks.
use vstd::prelude::*;

use crate::fuzzy;
use crate::text;
use crate::text::{char_count, contains_text, number_text, remove_text};

verus! {

// ---------------------------------------------------------------------------
// Levels
// ---------------------------------------------------------------------------

/// How important a record is.
#[derive(Debug, Clone, Copy, PartialEq, Eq, Structural)]
pub enum Level {
    Error,
    Warn,
    Info,
    Debug,
    Trace,
}

/// Up to which level records are logged.
#[derive(Debug, Clone, Copy, PartialEq, Eq, Structural)]
pub enum LevelFilter {
    Off,
    Error,
    Warn,
    Info,
    Debug,
    Trace,
}

impl Level {
    pub open spec fn rank(self) -> nat {
        match self {
            Level::Error => 1,
            Level::Warn => 2,
            Level::Info => 3,
            Level::Debug => 4,
            Level::Trace => 5,
        }
    }

    fn number(self) -> (r: usize)
        ensures
            r == self.rank(),
    {
        match self {
            Level::Error => 1,
            Level::Warn => 2,
            Level::Info => 3,
            Level::Debug => 4,
            Level::Trace => 5,
        }
    }
}

/// The program's name in a log line.
pub const PROGRAM_NAME: &'static str = "pitchfork";

impl Level {
    /// The name of the level, as it is before it is styled.
    pub fn name(self) -> (r: &'static str)
        ensures
            r@ == (match self {
                Level::Error => "ERROR"@,
                Level::Warn => "WARN"@,
                Level::Info => "INFO"@,
                Level::Debug => "DEBUG"@,
                Level::Trace => "TRACE"@,
            }),
    {
        match self {
            Level::Error => "ERROR",
            Level::Warn => "WARN",
            Level::Info => "INFO",
            Level::Debug => "DEBUG",
            Level::Trace => "TRACE",
        }
    }
}

impl LevelFilter {
    pub open spec fn rank(self) -> nat {
        match self {
            LevelFilter::Off => 0,
            LevelFilter::Error => 1,
            LevelFilter::Warn => 2,
            LevelFilter::Info => 3,
            LevelFilter::Debug => 4,
            LevelFilter::Trace => 5,
        }
    }

    /// The number by which a filter is stored.
    pub fn number(self) -> (r: usize)
        ensures
            r == self.rank(),
    {
        match self {
            LevelFilter::Off => 0,
            LevelFilter::Error => 1,
            LevelFilter::Warn => 2,
            LevelFilter::Info => 3,
            LevelFilter::Debug => 4,
            LevelFilter::Trace => 5,
        }
    }

    /// Whether a record of the level passes.
    pub open spec fn passes(self, level: Level) -> bool {
        level.rank() <= self.rank()
    }

    fn lets_pass(self, level: Level) -> (r: bool)
        ensures
            r == self.passes(level),
    {
        level.number() <= self.number()
    }

    /// The filter that lets more pass.
    pub open spec fn wider(self, other: LevelFilter) -> LevelFilter {
        if self.rank() >= other.rank() {
            self
        } else {
            other
        }
    }

    fn max(self, other: LevelFilter) -> (r: LevelFilter)
        ensures
            r == self.wider(other),
    {
        if self.number() >= other.number() {
            self
        } else {
            other
        }
    }
}

/// The filter that a number stands for; `Info` where it stands for none.
pub open spec fn stored_filter(n: usize) -> LevelFilter {
    if n == 0 {
        LevelFilter::Off
    } else if n == 1 {
        LevelFilter::Error
    } else if n == 2 {
        LevelFilter::Warn
    } else if n == 3 {
        LevelFilter::Info
    } else if n == 4 {
        LevelFilter::Debug
    } else if n == 5 {
        LevelFilter::Trace
    } else {
        LevelFilter::Info
    }
}

/// The filter that was stored by its number.
pub fn usize_to_level_filter(n: usize) -> (r: LevelFilter)
    ensures
        r == stored_filter(n),
{
    match n {
        0 => LevelFilter::Off,
        1 => LevelFilter::Error,
        2 => LevelFilter::Warn,
        3 => LevelFilter::Info,
        4 => LevelFilter::Debug,
        5 => LevelFilter::Trace,
        _ => LevelFilter::Info,
    }
}

/// Whether two texts are the same up to the case of ASCII letters.
pub open spec fn same_word(a: Seq<char>, b: Seq<char>) -> bool {
    a.len() == b.len() && forall|i: int|
        0 <= i < a.len() ==> fuzzy::small(#[trigger] a[i]) == fuzzy::small(b[i])
}

/// The filter that a word names.
pub open spec fn named_filter(word: Seq<char>) -> Option<LevelFilter> {
    if same_word(word, "OFF"@) {
        Some(LevelFilter::Off)
    } else if same_word(word, "ERROR"@) {
        Some(LevelFilter::Error)
    } else if same_word(word, "WARN"@) {
        Some(LevelFilter::Warn)
    } else if same_word(word, "INFO"@) {
        Some(LevelFilter::Info)
    } else if same_word(word, "DEBUG"@) {
        Some(LevelFilter::Debug)
    } else if same_word(word, "TRACE"@) {
        Some(LevelFilter::Trace)
    } else {
        None
    }
}

/// `log::LevelFilter::from_str`: the filter with the name, in whatever case.
#[verifier::external_body]
fn parse_filter(word: &str) -> (r: Option<LevelFilter>)
    ensures
        r == named_filter(word@),
{
    match word.parse::<log::LevelFilter>() {
        Ok(log::LevelFilter::Off) => Some(LevelFilter::Off),
        Ok(log::LevelFilter::Error) => Some(LevelFilter::Error),
        Ok(log::LevelFilter::Warn) => Some(LevelFilter::Warn),
        Ok(log::LevelFilter::Info) => Some(LevelFilter::Info),
        Ok(log::LevelFilter::Debug) => Some(LevelFilter::Debug),
        Ok(log::LevelFilter::Trace) => Some(LevelFilter::Trace),
        Err(_) => None,
    }
}

// ---------------------------------------------------------------------------
// Texts on a terminal
// ---------------------------------------------------------------------------

/// A text with blanks behind it, up to the width that it takes on a terminal.
pub uninterp spec fn padded(s: Seq<char>, width: nat) -> Seq<char>;

/// Whether the text is made of printable ASCII characters.
pub open spec fn is_printable(s: Seq<char>) -> bool {
    forall|i: int| 0 <= i < s.len() ==> ' ' <= (#[trigger] s[i]) <= '~'
}

/// A text with blanks behind it, up to the number of characters.
pub open spec fn filled(s: Seq<char>, width: nat) -> Seq<char>
    decreases width,
{
    if s.len() >= width {
        s
    } else {
        filled(s, (width - 1) as nat).push(' ')
    }
}

/// `console::pad_str`, to the left and without truncation: the text with
/// blanks behind it. Of printable ASCII characters each takes one place; how
/// much room other texts take is left to the name.
#[verifier::external_body]
fn pad_text(s: &str, width: usize) -> (r: String)
    ensures
        r@ == padded(s@, width as nat),
        is_printable(s@) ==> r@ == filled(s@, width as nat),
{
    console::pad_str(s, width, console::Alignment::Left, None).to_string()
}

/// A text without the codes that steer a terminal.
pub uninterp spec fn unstyled(s: Seq<char>) -> Seq<char>;

/// `console::strip_ansi_codes`: the text without the codes that steer a
/// terminal. A text without the characters that begin such codes stays as it
/// is; what else is taken out is left to the name.
#[verifier::external_body]
fn strip_codes(s: &str) -> (r: String)
    ensures
        r@ == unstyled(s@),
        !s@.contains('\u{1b}') && !s@.contains('\u{9b}') ==> r@ == s@,
{
    console::strip_ansi_codes(s).to_string()
}

/// The number of the thread in its debug form: what is left of it without its
/// frame.
pub open spec fn thread_number(debug: Seq<char>) -> Seq<char> {
    text::without(text::without(debug, "ThreadId("@), ")"@)
}

/// The number of a thread, from the thread's debug form.
pub fn thread_id(debug: &str) -> (r: String)
    ensures
        r@ == thread_number(debug@),
{
    proof {
        reveal_strlit("ThreadId(");
        reveal_strlit(")");
    }
    let inner = remove_text(debug, "ThreadId(");
    remove_text(inner.as_str(), ")")
}

// ---------------------------------------------------------------------------
// Records
// ---------------------------------------------------------------------------

/// What is to be logged.
#[derive(Debug)]
pub struct Record {
    pub level: Level,
    pub args: String,
    /// Where in the source the record comes from.
    pub file: Option<String>,
    pub line: Option<u32>,
}

/// The words of a log line as the terminal shows them.
#[derive(Debug)]
pub struct Styles {
    pub error: String,
    pub warn: String,
    pub info: String,
    pub debug: String,
    pub trace: String,
    /// The program's name before an error, a warning, and anything else.
    pub name_error: String,
    pub name_warn: String,
    pub name_other: String,
}

impl Styles {
    pub open spec fn level_name(self, level: Level) -> Seq<char> {
        match level {
            Level::Error => self.error@,
            Level::Warn => self.warn@,
            Level::Info => self.info@,
            Level::Debug => self.debug@,
            Level::Trace => self.trace@,
        }
    }

    pub open spec fn program_name(self, level: Level) -> Seq<char> {
        match level {
            Level::Error => self.name_error@,
            Level::Warn => self.name_warn@,
            _ => self.name_other@,
        }
    }
}

/// The file of a record, or a note that it is not known.
pub open spec fn record_file(record: Record) -> Seq<char> {
    match record.file {
        Some(file) => file@,
        None => "<unknown>"@,
    }
}

/// A text with a blank before it where it has only one character, with two
/// where it has none.
pub open spec fn two_wide(s: Seq<char>) -> Seq<char> {
    if s.len() == 0 {
        "  "@
    } else if s.len() == 1 {
        " "@ + s
    } else {
        s
    }
}

/// Where a record comes from.
pub open spec fn record_origin(record: Record, thread: Seq<char>) -> Seq<char> {
    let line = match record.line {
        Some(line) => line as nat,
        None => 0,
    };
    two_wide(thread) + " ["@ + record_file(record) + ":"@ + text::decimal(line) + "]"@
}

/// Whether a record comes from a crate whose traces are of no interest.
pub open spec fn is_noise(record: Record) -> bool {
    record.level == Level::Trace && (text::occurs(
        record_file(record),
        "/notify-debouncer-full-"@,
    ) || text::occurs(record_file(record), "/notify-"@))
}

/// The name of a level in a log line.
pub open spec fn level_label(styles: Styles, level: Level) -> Seq<char> {
    padded(styles.level_name(level), 5)
}

/// What the terminal shows of a record, given the program's name and the
/// name of the record's level as they are shown; nothing where it is empty.
pub open spec fn composed(
    record: Record,
    filter: LevelFilter,
    program: Seq<char>,
    label: Seq<char>,
    origin: Seq<char>,
) -> Seq<char> {
    match filter {
        LevelFilter::Off => Seq::empty(),
        LevelFilter::Trace => if is_noise(record) {
            Seq::empty()
        } else {
            label + " "@ + origin + " "@ + record.args@
        },
        LevelFilter::Debug => label + " "@ + record.args@,
        _ => if record.level == Level::Info {
            program + " "@ + record.args@
        } else {
            program + " "@ + label + " "@ + record.args@
        },
    }
}

/// What the terminal shows of a record.
pub open spec fn rendered(
    record: Record,
    filter: LevelFilter,
    styles: Styles,
    origin: Seq<char>,
) -> Seq<char> {
    composed(
        record,
        filter,
        styles.program_name(record.level),
        level_label(styles, record.level),
        origin,
    )
}

/// What the file gets of a record, before it is made plain.
pub open spec fn file_text(now: Seq<char>, label: Seq<char>, args: Seq<char>) -> Seq<char> {
    now + " "@ + label + " "@ + args
}

/// What the file gets of a record.
pub open spec fn file_line(record: Record, styles: Styles, now: Seq<char>) -> Seq<char> {
    unstyled(file_text(now, level_label(styles, record.level), record.args@))
}

impl Record {
    fn file_text(&self) -> (r: String)
        ensures
            r@ == record_file(*self),
    {
        match &self.file {
            Some(file) => file.clone(),
            None => "<unknown>".to_owned(),
        }
    }

    /// Where the record comes from, given the number of the thread.
    pub fn origin(&self, thread: &str) -> (r: String)
        ensures
            r@ == record_origin(*self, thread@),
    {
        let width = char_count(thread);
        let mut out = if width == 0 {
            "  ".to_owned()
        } else if width == 1 {
            let mut padded = " ".to_owned();
            padded.append(thread);
            padded
        } else {
            thread.to_owned()
        };
        out.append(" [");
        out.append(self.file_text().as_str());
        out.append(":");
        let line: u64 = match self.line {
            Some(line) => line as u64,
            None => 0,
        };
        out.append(number_text(line).as_str());
        out.append("]");
        out
    }
}

impl Styles {
    fn label(&self, level: Level) -> (r: String)
        ensures
            r@ == level_label(*self, level),
            is_printable(self.level_name(level)) ==> r@ == filled(self.level_name(level), 5),
    {
        let name = match level {
            Level::Error => self.error.as_str(),
            Level::Warn => self.warn.as_str(),
            Level::Info => self.info.as_str(),
            Level::Debug => self.debug.as_str(),
            Level::Trace => self.trace.as_str(),
        };
        pad_text(name, 5)
    }
}

/// What the terminal shows of a record, given the program's name and the name
/// of the record's level as they are shown.
pub fn compose(
    record: &Record,
    level: LevelFilter,
    program: &str,
    label: &str,
    origin: &str,
) -> (r: String)
    ensures
        r@ == composed(*record, level, program@, label@, origin@),
{
    match level {
        LevelFilter::Off => {
            let empty = String::new();
            assert(empty@ =~= Seq::<char>::empty());
            empty
        },
        LevelFilter::Trace => {
            let file = record.file_text();
            let noise = match record.level {
                Level::Trace => contains_text(file.as_str(), "/notify-debouncer-full-")
                    || contains_text(file.as_str(), "/notify-"),
                _ => false,
            };
            if noise {
                let empty = String::new();
                assert(empty@ =~= Seq::<char>::empty());
                return empty;
            }
            let mut out = label.to_owned();
            out.append(" ");
            out.append(origin);
            out.append(" ");
            out.append(record.args.as_str());
            out
        },
        LevelFilter::Debug => {
            let mut out = label.to_owned();
            out.append(" ");
            out.append(record.args.as_str());
            out
        },
        _ => {
            let mut out = program.to_owned();
            out.append(" ");
            match record.level {
                Level::Info => {},
                _ => {
                    out.append(label);
                    out.append(" ");
                },
            }
            out.append(record.args.as_str());
            out
        },
    }
}

/// What the file gets of a record, before it is made plain.
pub fn compose_file_text(now: &str, label: &str, args: &str) -> (r: String)
    ensures
        r@ == file_text(now@, label@, args@),
{
    let mut line = now.to_owned();
    line.append(" ");
    line.append(label);
    line.append(" ");
    line.append(args);
    line
}

// ---------------------------------------------------------------------------
// The logger
// ---------------------------------------------------------------------------

/// What the logger writes of a record.
#[derive(Debug)]
pub struct LogOutput {
    pub file: Option<String>,
    pub terminal: Option<String>,
}

/// Up to which level the terminal and the file get records.
#[derive(Debug, Clone, Copy, PartialEq, Eq, Structural)]
pub struct Logger {
    pub term_level: LevelFilter,
    pub file_level: LevelFilter,
    /// Whether there is a file.
    pub has_file: bool,
}

impl Logger {
    /// Whether a record of the level is written anywhere.
    pub fn enabled(&self, level: Level) -> (r: bool)
        ensures
            r == self.term_level.wider(self.file_level).passes(level),
    {
        self.term_level.max(self.file_level).lets_pass(level)
    }

    /// The widest level that is logged anywhere.
    pub fn max_level(&self) -> (r: LevelFilter)
        ensures
            r == self.term_level.wider(self.file_level),
    {
        self.term_level.max(self.file_level)
    }

    /// What the terminal shows of a record, given the level up to which it
    /// gets records and the origin as it is shown.
    pub fn render(
        &self,
        record: &Record,
        level: LevelFilter,
        styles: &Styles,
        origin: &str,
    ) -> (r: String)
        ensures
            r@ == rendered(*record, level, *styles, origin@),
            is_printable(styles.level_name(record.level)) ==> r@ == composed(
                *record,
                level,
                styles.program_name(record.level),
                filled(styles.level_name(record.level), 5),
                origin@,
            ),
    {
        let label = styles.label(record.level);
        let program = match record.level {
            Level::Error => styles.name_error.as_str(),
            Level::Warn => styles.name_warn.as_str(),
            _ => styles.name_other.as_str(),
        };
        compose(record, level, program, label.as_str(), origin)
    }

    /// What is written of a record, given the time and the origin as they are shown.
    pub fn log(&self, record: &Record, styles: &Styles, now: &str, origin: &str) -> (r: LogOutput)
        ensures
            if self.has_file && self.file_level.passes(record.level) {
                r.file matches Some(line) && line@ == file_line(*record, *styles, now@)
            } else {
                r.file is None
            },
            ({
                let line = rendered(*record, self.term_level, *styles, origin@);
                if self.term_level.passes(record.level) && line.len() > 0 {
                    r.terminal matches Some(shown) && shown@ == line
                } else {
                    r.terminal is None
                }
            }),
    {
        let file = if self.has_file && self.file_level.lets_pass(record.level) {
            let label = styles.label(record.level);
            let line = compose_file_text(now, label.as_str(), record.args.as_str());
            Some(strip_codes(line.as_str()))
        } else {
            None
        };
        let terminal = if self.term_level.lets_pass(record.level) {
            let line = self.render(record, self.term_level, styles, origin);
            if line.as_str().is_empty() {
                None
            } else {
                Some(line)
            }
        } else {
            None
        };
        LogOutput { file, terminal }
    }

    /// The levels of the settings. A level of the terminal that names none is
    /// `Info`; one of the file that names none is that of the terminal.
    pub open spec fn with_settings(
        self,
        log_level: Seq<char>,
        log_file_level: Seq<char>,
    ) -> Logger {
        let term = match named_filter(log_level) {
            Some(level) => level,
            None => LevelFilter::Info,
        };
        let file = match named_filter(log_file_level) {
            Some(level) => level,
            None => term,
        };
        Logger { term_level: term, file_level: file, ..self }
    }

    fn apply_settings_levels(&mut self, log_level: &str, log_file_level: &str)
        ensures
            *final(self) == old(self).with_settings(log_level@, log_file_level@),
    {
        let term = match parse_filter(log_level) {
            Some(level) => level,
            None => LevelFilter::Info,
        };
        self.term_level = term;
        self.file_level =
        match parse_filter(log_file_level) {
            Some(level) => level,
            None => term,
        };
    }
}

/// Takes over the levels of the settings, and says up to which level anything
/// is logged from then on.
pub fn apply_settings(logger: &mut Logger, log_level: &str, log_file_level: &str) -> (r:
    LevelFilter)
    ensures
        *final(logger) == old(logger).with_settings(log_level@, log_file_level@),
        r == final(logger).term_level.wider(final(logger).file_level),
{
    logger.apply_settings_levels(log_level, log_file_level);
    logger.max_level()
}

// ---------------------------------------------------------------------------
// Laws
// ---------------------------------------------------------------------------

/// A filter that is stored by its number is read back.
pub proof fn law_filters_are_read_back(filter: LevelFilter)
    ensures
        stored_filter(filter.rank() as usize) == filter,
{
}

/// A record is enabled exactly if the terminal's filter or the file's filter
/// lets it pass.
pub proof fn law_enabled_means_logged_somewhere(
    term: LevelFilter,
    file: LevelFilter,
    level: Level,
)
    ensures
        term.wider(file).passes(level) <==> term.passes(level) || file.passes(level),
{
}

/// A filter lets pass everything that a narrower one does, and `Off` nothing.
pub proof fn law_wider_filters_pass_more(a: LevelFilter, b: LevelFilter, level: Level)
    ensures
        a.rank() <= b.rank() && a.passes(level) ==> b.passes(level),
        !LevelFilter::Off.passes(level),
        LevelFilter::Trace.passes(level),
{
}

/// What passes a filter: errors unless all is off, and each less important
/// level from the filter of its own name on.
pub proof fn law_filters_pass_what_they_name(f: LevelFilter)
    ensures
        f.passes(Level::Error) <==> f != LevelFilter::Off,
        f.passes(Level::Warn) <==> f != LevelFilter::Off && f != LevelFilter::Error,
        f.passes(Level::Info) <==> f == LevelFilter::Info || f == LevelFilter::Debug || f
            == LevelFilter::Trace,
        f.passes(Level::Debug) <==> f == LevelFilter::Debug || f == LevelFilter::Trace,
        f.passes(Level::Trace) <==> f == LevelFilter::Trace,
{
}

/// Whether a record is a trace from a file with this piece in its path.
pub open spec fn traces_from(record: Record, piece: Seq<char>) -> bool {
    record.level == Level::Trace && record.file is Some && exists|a: Seq<char>, b: Seq<char>|
        record.file->0@ == #[trigger] (a + piece + b)
}

/// What the terminal shows: always the whole message, at the end. In the trace
/// form the level and the origin stand before it, in the debug form the level,
/// else the program's name and, but for information, the level. Nothing is
/// shown where all is off, nor of the traces of the file watcher.
pub proof fn law_records_are_shown_whole(
    record: Record,
    filter: LevelFilter,
    program: Seq<char>,
    label: Seq<char>,
    origin: Seq<char>,
)
    ensures
        ({
            let shown = composed(record, filter, program, label, origin);
            let noise = traces_from(record, "/notify-"@) || traces_from(
                record,
                "/notify-debouncer-full-"@,
            );
            &&& filter == LevelFilter::Off ==> shown.len() == 0
            &&& filter == LevelFilter::Trace && noise ==> shown.len() == 0
            &&& filter == LevelFilter::Trace && !noise ==> shown == label + " "@ + origin + " "@
                + record.args@
            &&& filter == LevelFilter::Debug ==> shown == label + " "@ + record.args@
            &&& (filter == LevelFilter::Info || filter == LevelFilter::Warn || filter
                == LevelFilter::Error) && record.level == Level::Info ==> shown == program + " "@
                + record.args@
            &&& (filter == LevelFilter::Info || filter == LevelFilter::Warn || filter
                == LevelFilter::Error) && record.level != Level::Info ==> shown == program + " "@
                + label + " "@ + record.args@
        }),
{
    lemma_noise(record);
}

proof fn lemma_noise(record: Record)
    ensures
        is_noise(record) <==> traces_from(record, "/notify-"@) || traces_from(
            record,
            "/notify-debouncer-full-"@,
        ),
{
    let file = record_file(record);
    text::law_occurring_is_standing_between(file, "/notify-"@);
    text::law_occurring_is_standing_between(file, "/notify-debouncer-full-"@);
    if record.file is None {
        lemma_unknown_is_no_noise();
    }
}

proof fn lemma_unknown_is_no_noise()
    ensures
        !text::occurs("<unknown>"@, "/notify-"@),
        !text::occurs("<unknown>"@, "/notify-debouncer-full-"@),
{
    reveal_strlit("<unknown>");
    reveal_strlit("/notify-");
    reveal_strlit("/notify-debouncer-full-");
    let file = "<unknown>"@;
    if text::occurs(file, "/notify-"@) {
        let at = choose|at: int| #[trigger] text::occurs_at(file, "/notify-"@, at);
        assert(at == 0 || at == 1);
        assert(file.subrange(at, at + 8)[0] == '/');
        assert(file[at] == '/');
    }
}

/// A record is shown under the name of its own level; errors and warnings have
/// a program name of their own.
pub proof fn law_levels_have_their_names(
    record: Record,
    filter: LevelFilter,
    styles: Styles,
    origin: Seq<char>,
    now: Seq<char>,
)
    ensures
        record.level == Level::Error ==> rendered(record, filter, styles, origin) == composed(
            record,
            filter,
            styles.name_error@,
            padded(styles.error@, 5),
            origin,
        ),
        record.level == Level::Warn ==> rendered(record, filter, styles, origin) == composed(
            record,
            filter,
            styles.name_warn@,
            padded(styles.warn@, 5),
            origin,
        ),
        record.level == Level::Info ==> rendered(record, filter, styles, origin) == composed(
            record,
            filter,
            styles.name_other@,
            padded(styles.info@, 5),
            origin,
        ),
        record.level == Level::Debug ==> rendered(record, filter, styles, origin) == composed(
            record,
            filter,
            styles.name_other@,
            padded(styles.debug@, 5),
            origin,
        ),
        record.level == Level::Trace ==> rendered(record, filter, styles, origin) == composed(
            record,
            filter,
            styles.name_other@,
            padded(styles.trace@, 5),
            origin,
        ),
        record.level == Level::Error ==> file_line(record, styles, now) == unstyled(
            now + " "@ + padded(styles.error@, 5) + " "@ + record.args@,
        ),
        record.level == Level::Warn ==> file_line(record, styles, now) == unstyled(
            now + " "@ + padded(styles.warn@, 5) + " "@ + record.args@,
        ),
        record.level == Level::Info ==> file_line(record, styles, now) == unstyled(
            now + " "@ + padded(styles.info@, 5) + " "@ + record.args@,
        ),
        record.level == Level::Debug ==> file_line(record, styles, now) == unstyled(
            now + " "@ + padded(styles.debug@, 5) + " "@ + record.args@,
        ),
        record.level == Level::Trace ==> file_line(record, styles, now) == unstyled(
            now + " "@ + padded(styles.trace@, 5) + " "@ + record.args@,
        ),
{
}

/// Where a record comes from: the thread, at least two places wide, and in
/// brackets the file and the line, as far as they are known.
pub proof fn law_origins_name_file_and_line(record: Record, thread: Seq<char>)
    ensures
        ({
            let file = if record.file is Some {
                record.file->0@
            } else {
                "<unknown>"@
            };
            let line = if record.line is Some {
                record.line->0 as nat
            } else {
                0
            };
            let end = " ["@ + file + ":"@ + text::decimal(line) + "]"@;
            &&& thread.len() >= 2 ==> record_origin(record, thread) == thread + end
            &&& thread.len() == 1 ==> record_origin(record, thread) == " "@ + thread + end
            &&& thread.len() == 0 ==> record_origin(record, thread) == "  "@ + end
        }),
{
    let file = record_file(record);
    let line = text::decimal(
        if record.line is Some {
            record.line->0 as nat
        } else {
            0
        },
    );
    let wide = two_wide(thread);
    let end = " ["@ + file + ":"@ + line + "]"@;
    assert(wide + " ["@ + file + ":"@ + line + "]"@ =~= wide + end);
}

/// The number of a thread is what stands between the brackets of its debug
/// form.
pub proof fn law_thread_numbers(n: nat)
    ensures
        thread_number("ThreadId("@ + text::decimal(n) + ")"@) == text::decimal(n),
{
    reveal_strlit("ThreadId(");
    reveal_strlit(")");
    let open = "ThreadId("@;
    let close = ")"@;
    let digits = text::decimal(n);
    let inner = digits + close;
    text::lemma_decimal(n);
    assert(open + digits + close =~= open + inner);
    text::law_a_part_is_taken_out(inner, open);
    assert(!text::occurs(inner, open)) by {
        if text::occurs(inner, open) {
            let at = choose|at: int| #[trigger] text::occurs_at(inner, open, at);
            assert(inner.subrange(at, at + 9)[0] == 'T');
            assert(inner[at] == 'T');
            if at < digits.len() {
                assert(text::is_digit(digits[at]));
            }
        }
    }
    assert(close =~= seq![')']);
    lemma_close(digits, close);
}

proof fn lemma_close(digits: Seq<char>, close: Seq<char>)
    requires
        close == seq![')'],
        forall|i: int| 0 <= i < digits.len() ==> text::is_digit(#[trigger] digits[i]),
    ensures
        text::without(digits + close, close) == digits,
    decreases digits.len(),
{
    let all = digits + close;
    if digits.len() == 0 {
        assert(all.take(close.len() as int) =~= close);
        assert(all.skip(close.len() as int) =~= digits);
        assert(text::without(digits, close) == digits);
    } else {
        let rest = digits.drop_first();
        assert(text::is_digit(digits[0]));
        assert(!text::has_prefix(all, close)) by {
            if text::has_prefix(all, close) {
                assert(all.take(1)[0] == ')');
            }
        }
        assert forall|i: int| 0 <= i < rest.len() implies text::is_digit(#[trigger] rest[i]) by {
            assert(rest[i] == digits[i + 1]);
        }
        lemma_close(rest, close);
        assert(all.drop_first() =~= rest + close);
        assert(seq![all[0]] + rest =~= digits);
    }
}

/// The levels of the settings: that of the terminal is the one that is named,
/// or information; that of the file is the one that is named, or that of the
/// terminal. Whether there is a file stays as it was.
pub proof fn law_settings_name_the_levels(
    logger: Logger,
    log_level: Seq<char>,
    log_file_level: Seq<char>,
)
    ensures
        ({
            let r = logger.with_settings(log_level, log_file_level);
            &&& named_filter(log_level) is Some ==> Some(r.term_level) == named_filter(log_level)
            &&& named_filter(log_level) is None ==> r.term_level == LevelFilter::Info
            &&& named_filter(log_file_level) is Some ==> Some(r.file_level) == named_filter(
                log_file_level,
            )
            &&& named_filter(log_file_level) is None ==> r.file_level == r.term_level
            &&& r.has_file == logger.has_file
        }),
{
}

/// The wider of two filters is one of them and passes what either does.
pub proof fn law_the_wider_filter(a: LevelFilter, b: LevelFilter)
    ensures
        a.wider(b) == a || a.wider(b) == b,
        a.wider(b) == b.wider(a),
        a.wider(LevelFilter::Off) == a,
        a.wider(LevelFilter::Trace) == LevelFilter::Trace,
{
}

/// The numbers by which filters are stored; another number stands for
/// information.
pub proof fn law_filters_have_numbers(n: usize)
    ensures
        LevelFilter::Off.rank() == 0 && stored_filter(0) == LevelFilter::Off,
        LevelFilter::Error.rank() == 1 && stored_filter(1) == LevelFilter::Error,
        LevelFilter::Warn.rank() == 2 && stored_filter(2) == LevelFilter::Warn,
        LevelFilter::Info.rank() == 3 && stored_filter(3) == LevelFilter::Info,
        LevelFilter::Debug.rank() == 4 && stored_filter(4) == LevelFilter::Debug,
        LevelFilter::Trace.rank() == 5 && stored_filter(5) == LevelFilter::Trace,
        n > 5 ==> stored_filter(n) == LevelFilter::Info,
{
}

} // verus!
