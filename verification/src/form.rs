//! The fields of the form in which a daemon's section is edited.
use vstd::prelude::*;

use crate::config::{CronRetrigger, PitchforkTomlAuto};
use crate::text;
use crate::text::{join, list_of, number_text, parse_number, trim};

verus! {

/// What a field holds.
#[derive(Debug, Clone)]
pub enum FormFieldValue {
    Text(String),
    OptionalText(Option<String>),
    Number(u32),
    OptionalNumber(Option<u64>),
    OptionalPort(Option<u16>),
    Boolean(bool),
    OptionalBoolean(Option<bool>),
    AutoBehavior(Vec<PitchforkTomlAuto>),
    Retrigger(CronRetrigger),
    StringList(Vec<String>),
}

#[verifier::ext_equal]
pub enum ValueView {
    Text(Seq<char>),
    OptionalText(Option<Seq<char>>),
    Number(u32),
    OptionalNumber(Option<u64>),
    OptionalPort(Option<u16>),
    Boolean(bool),
    OptionalBoolean(Option<bool>),
    AutoBehavior(Seq<PitchforkTomlAuto>),
    Retrigger(CronRetrigger),
    StringList(Seq<Seq<char>>),
}

impl View for FormFieldValue {
    type V = ValueView;

    open spec fn view(&self) -> ValueView {
        match self {
            FormFieldValue::Text(s) => ValueView::Text(s@),
            FormFieldValue::OptionalText(s) => ValueView::OptionalText(text::opt_view(*s)),
            FormFieldValue::Number(n) => ValueView::Number(*n),
            FormFieldValue::OptionalNumber(n) => ValueView::OptionalNumber(*n),
            FormFieldValue::OptionalPort(p) => ValueView::OptionalPort(*p),
            FormFieldValue::Boolean(b) => ValueView::Boolean(*b),
            FormFieldValue::OptionalBoolean(b) => ValueView::OptionalBoolean(*b),
            FormFieldValue::AutoBehavior(v) => ValueView::AutoBehavior(v@),
            FormFieldValue::Retrigger(r) => ValueView::Retrigger(*r),
            FormFieldValue::StringList(v) => ValueView::StringList(text::views(v@)),
        }
    }
}

impl ValueView {
    /// What the value reads as in a text box.
    pub open spec fn text(self) -> Seq<char> {
        match self {
            ValueView::Text(s) => s,
            ValueView::OptionalText(Some(s)) => s,
            ValueView::Number(n) => text::decimal(n as nat),
            ValueView::OptionalNumber(Some(n)) => text::decimal(n as nat),
            ValueView::OptionalPort(Some(p)) => text::decimal(p as nat),
            ValueView::StringList(v) => text::joined(v, ", "@),
            _ => Seq::empty(),
        }
    }

    /// Whether the value is edited in a text box.
    pub open spec fn editable(self) -> bool {
        match self {
            ValueView::Text(_) => true,
            ValueView::OptionalText(_) => true,
            ValueView::Number(_) => true,
            ValueView::OptionalNumber(_) => true,
            ValueView::OptionalPort(_) => true,
            ValueView::StringList(_) => true,
            _ => false,
        }
    }

    /// The value of the same kind that the text gives. What does not read as a
    /// number counts as none, or as zero where there has to be one.
    pub open spec fn with_text(self, t: Seq<char>) -> ValueView {
        match self {
            ValueView::Text(_) => ValueView::Text(t),
            ValueView::OptionalText(_) => ValueView::OptionalText(
                if t.len() == 0 {
                    None
                } else {
                    Some(t)
                },
            ),
            ValueView::Number(_) => ValueView::Number(
                match text::parsed_number(text::trimmed(t), u32::MAX as nat) {
                    Some(n) => n as u32,
                    None => 0,
                },
            ),
            ValueView::OptionalNumber(_) => ValueView::OptionalNumber(
                match text::parsed_number(t, u64::MAX as nat) {
                    Some(n) => Some(n as u64),
                    None => None,
                },
            ),
            ValueView::OptionalPort(_) => ValueView::OptionalPort(
                match text::parsed_number(t, u16::MAX as nat) {
                    Some(n) => Some(n as u16),
                    None => None,
                },
            ),
            ValueView::StringList(_) => ValueView::StringList(text::list_entries(t)),
            other => other,
        }
    }

    /// The next value of a field that is switched rather than typed in.
    pub open spec fn toggled(self) -> ValueView {
        match self {
            ValueView::Boolean(b) => ValueView::Boolean(!b),
            ValueView::OptionalBoolean(None) => ValueView::OptionalBoolean(Some(true)),
            ValueView::OptionalBoolean(Some(true)) => ValueView::OptionalBoolean(Some(false)),
            ValueView::OptionalBoolean(Some(false)) => ValueView::OptionalBoolean(None),
            ValueView::AutoBehavior(v) => ValueView::AutoBehavior(
                match (v.contains(PitchforkTomlAuto::Start), v.contains(PitchforkTomlAuto::Stop)) {
                    (false, false) => seq![PitchforkTomlAuto::Start],
                    (true, false) => seq![PitchforkTomlAuto::Stop],
                    (false, true) => seq![PitchforkTomlAuto::Start, PitchforkTomlAuto::Stop],
                    (true, true) => Seq::empty(),
                },
            ),
            ValueView::Retrigger(r) => ValueView::Retrigger(
                match r {
                    CronRetrigger::Finish => CronRetrigger::Always,
                    CronRetrigger::Always => CronRetrigger::Success,
                    CronRetrigger::Success => CronRetrigger::Fail,
                    CronRetrigger::Fail => CronRetrigger::Finish,
                },
            ),
            other => other,
        }
    }
}

/// Whether two values are of the same kind.
pub open spec fn same_kind(a: ValueView, b: ValueView) -> bool {
    match a {
        ValueView::Text(_) => b is Text,
        ValueView::OptionalText(_) => b is OptionalText,
        ValueView::Number(_) => b is Number,
        ValueView::OptionalNumber(_) => b is OptionalNumber,
        ValueView::OptionalPort(_) => b is OptionalPort,
        ValueView::Boolean(_) => b is Boolean,
        ValueView::OptionalBoolean(_) => b is OptionalBoolean,
        ValueView::AutoBehavior(_) => b is AutoBehavior,
        ValueView::Retrigger(_) => b is Retrigger,
        ValueView::StringList(_) => b is StringList,
    }
}

/// A field of the form.
#[derive(Debug, Clone)]
pub struct FormField {
    pub name: &'static str,
    pub label: &'static str,
    pub value: FormFieldValue,
    pub required: bool,
    pub help_text: &'static str,
    pub error: Option<String>,
    pub editing: bool,
    pub cursor: usize,
}

#[verifier::ext_equal]
pub struct FieldView {
    pub name: Seq<char>,
    pub label: Seq<char>,
    pub value: ValueView,
    pub required: bool,
    pub help_text: Seq<char>,
    pub error: Option<Seq<char>>,
    pub editing: bool,
    pub cursor: usize,
}

impl View for FormField {
    type V = FieldView;

    open spec fn view(&self) -> FieldView {
        FieldView {
            name: self.name@,
            label: self.label@,
            value: self.value@,
            required: self.required,
            help_text: self.help_text@,
            error: text::opt_view(self.error),
            editing: self.editing,
            cursor: self.cursor,
        }
    }
}

/// What a list of fields stands for.
pub open spec fn field_views(fields: Seq<FormField>) -> Seq<FieldView> {
    fields.map_values(|f: FormField| f@)
}

/// A field as it stands in a form that nobody has touched.
pub open spec fn fresh_field(
    name: Seq<char>,
    label: Seq<char>,
    help_text: Seq<char>,
    required: bool,
    value: ValueView,
) -> FieldView {
    FieldView {
        name,
        label,
        value,
        required,
        help_text,
        error: None,
        editing: false,
        cursor: 0,
    }
}

impl FieldView {
    /// The field after a text was put into it.
    pub open spec fn with_text(self, t: Seq<char>) -> FieldView {
        let bad_number = text::trimmed(t).len() > 0 && text::parsed_number(
            text::trimmed(t),
            u32::MAX as nat,
        ) is None;
        FieldView {
            value: self.value.with_text(t),
            error: if self.value is Number {
                if bad_number {
                    Some("Invalid number"@)
                } else {
                    None
                }
            } else {
                self.error
            },
            ..self
        }
    }
}

impl FormField {
    fn fresh(
        name: &'static str,
        label: &'static str,
        help: &'static str,
        required: bool,
        value: FormFieldValue,
    ) -> (r: Self)
        ensures
            r@ == fresh_field(name@, label@, help@, required, value@),
    {
        FormField {
            name,
            label,
            value,
            required,
            help_text: help,
            error: None,
            editing: false,
            cursor: 0,
        }
    }

    pub fn text(
        name: &'static str,
        label: &'static str,
        help: &'static str,
        required: bool,
    ) -> (r: Self)
        ensures
            r@ == fresh_field(name@, label@, help@, required, ValueView::Text(Seq::empty())),
    {
        let value = FormFieldValue::Text(String::new());
        assert(value@ =~= ValueView::Text(Seq::empty()));
        FormField::fresh(name, label, help, required, value)
    }

    pub fn optional_text(name: &'static str, label: &'static str, help: &'static str) -> (r: Self)
        ensures
            r@ == fresh_field(name@, label@, help@, false, ValueView::OptionalText(None)),
    {
        FormField::fresh(name, label, help, false, FormFieldValue::OptionalText(None))
    }

    pub fn number(
        name: &'static str,
        label: &'static str,
        help: &'static str,
        default: u32,
    ) -> (r: Self)
        ensures
            r@ == fresh_field(name@, label@, help@, false, ValueView::Number(default)),
    {
        FormField::fresh(name, label, help, false, FormFieldValue::Number(default))
    }

    pub fn optional_number(name: &'static str, label: &'static str, help: &'static str) -> (r: Self)
        ensures
            r@ == fresh_field(name@, label@, help@, false, ValueView::OptionalNumber(None)),
    {
        FormField::fresh(name, label, help, false, FormFieldValue::OptionalNumber(None))
    }

    pub fn optional_port(name: &'static str, label: &'static str, help: &'static str) -> (r: Self)
        ensures
            r@ == fresh_field(name@, label@, help@, false, ValueView::OptionalPort(None)),
    {
        FormField::fresh(name, label, help, false, FormFieldValue::OptionalPort(None))
    }

    pub fn optional_bool(name: &'static str, label: &'static str, help: &'static str) -> (r: Self)
        ensures
            r@ == fresh_field(name@, label@, help@, false, ValueView::OptionalBoolean(None)),
    {
        FormField::fresh(name, label, help, false, FormFieldValue::OptionalBoolean(None))
    }

    pub fn auto_behavior(name: &'static str, label: &'static str, help: &'static str) -> (r: Self)
        ensures
            r@ == fresh_field(name@, label@, help@, false, ValueView::AutoBehavior(Seq::empty())),
    {
        let value = FormFieldValue::AutoBehavior(Vec::new());
        assert(value@ =~= ValueView::AutoBehavior(Seq::empty()));
        FormField::fresh(name, label, help, false, value)
    }

    pub fn retrigger(name: &'static str, label: &'static str, help: &'static str) -> (r: Self)
        ensures
            r@ == fresh_field(
                name@,
                label@,
                help@,
                false,
                ValueView::Retrigger(CronRetrigger::Finish),
            ),
    {
        FormField::fresh(
            name,
            label,
            help,
            false,
            FormFieldValue::Retrigger(CronRetrigger::Finish),
        )
    }

    pub fn string_list(name: &'static str, label: &'static str, help: &'static str) -> (r: Self)
        ensures
            r@ == fresh_field(name@, label@, help@, false, ValueView::StringList(Seq::empty())),
    {
        let value = FormFieldValue::StringList(Vec::new());
        assert(value@ =~= ValueView::StringList(Seq::empty()));
        FormField::fresh(name, label, help, false, value)
    }

    /// What the field reads as in a text box.
    pub fn get_text(&self) -> (r: String)
        ensures
            r@ == self@.value.text(),
    {
        match &self.value {
            FormFieldValue::Text(s) => s.clone(),
            FormFieldValue::OptionalText(Some(s)) => s.clone(),
            FormFieldValue::Number(n) => number_text(*n as u64),
            FormFieldValue::OptionalNumber(Some(n)) => number_text(*n),
            FormFieldValue::OptionalPort(Some(p)) => number_text(*p as u64),
            FormFieldValue::StringList(v) => join(v, ", "),
            _ => {
                let empty = String::new();
                assert(empty@ =~= Seq::<char>::empty());
                empty
            },
        }
    }

    /// Puts a text into the field.
    pub fn set_text(&mut self, text: String)
        ensures
            final(self)@ == old(self)@.with_text(text@),
    {
        match &self.value {
            FormFieldValue::Text(_) => {
                self.value = FormFieldValue::Text(text);
            },
            FormFieldValue::OptionalText(_) => {
                self.value =
                FormFieldValue::OptionalText(
                    if text.as_str().is_empty() {
                        None
                    } else {
                        Some(text)
                    },
                );
            },
            FormFieldValue::Number(_) => {
                let trimmed = trim(text.as_str());
                if trimmed.as_str().is_empty() {
                    proof {
                        assert(text::number_digits(trimmed@).len() == 0);
                    }
                    self.value = FormFieldValue::Number(0);
                    self.error = None;
                } else {
                    match parse_number(trimmed.as_str(), u32::MAX as u64) {
                        Some(n) => {
                            self.value = FormFieldValue::Number(n as u32);
                            self.error = None;
                        },
                        None => {
                            self.value = FormFieldValue::Number(0);
                            self.error = Some("Invalid number".to_owned());
                        },
                    }
                }
            },
            FormFieldValue::OptionalNumber(_) => {
                self.value =
                FormFieldValue::OptionalNumber(parse_number(text.as_str(), u64::MAX));
            },
            FormFieldValue::OptionalPort(_) => {
                self.value =
                FormFieldValue::OptionalPort(
                    match parse_number(text.as_str(), u16::MAX as u64) {
                        Some(n) => Some(n as u16),
                        None => None,
                    },
                );
            },
            FormFieldValue::StringList(_) => {
                self.value = FormFieldValue::StringList(list_of(text.as_str()));
            },
            _ => {},
        }
    }

    pub fn is_text_editable(&self) -> (r: bool)
        ensures
            r == self@.value.editable(),
    {
        matches!(
            &self.value,
            FormFieldValue::Text(_) | FormFieldValue::OptionalText(_) | FormFieldValue::Number(_)
                | FormFieldValue::OptionalNumber(_) | FormFieldValue::OptionalPort(_)
                | FormFieldValue::StringList(_)
        )
    }
}

// ---------------------------------------------------------------------------
// Laws
// ---------------------------------------------------------------------------

/// Whether a text box can show the value: an optional text is not empty where
/// there is one, and the items of a list are entries of a comma-separated list.
pub open spec fn showable(v: ValueView) -> bool {
    match v {
        ValueView::OptionalText(Some(s)) => s.len() > 0,
        ValueView::StringList(l) => forall|i: int|
            0 <= i < l.len() ==> text::list_entry(#[trigger] l[i]),
        _ => true,
    }
}

/// Putting back the text that a field shows changes nothing of its value.
pub proof fn law_text_round_trip(v: ValueView)
    requires
        showable(v),
    ensures
        v.with_text(v.text()) == v,
{
    match v {
        ValueView::Number(n) => {
            let d = text::decimal(n as nat);
            text::lemma_decimal(n as nat);
            assert(text::is_digit(d[0]) && text::is_digit(d[d.len() - 1]));
            text::lemma_trimmed_fixed(d);
            text::law_number_round_trip(n as nat, u32::MAX as nat);
        },
        ValueView::OptionalNumber(Some(n)) => {
            text::law_number_round_trip(n as nat, u64::MAX as nat);
        },
        ValueView::OptionalPort(Some(p)) => {
            text::law_number_round_trip(p as nat, u16::MAX as nat);
        },
        ValueView::OptionalNumber(None) | ValueView::OptionalPort(None) => {
            assert(text::number_digits(v.text()).len() == 0);
        },
        ValueView::StringList(l) => {
            text::law_list_round_trip(l);
        },
        _ => {},
    }
}

/// What was typed into a text box is a value that the box can show again.
pub proof fn law_typed_is_showable(v: ValueView, t: Seq<char>)
    ensures
        v.editable() ==> showable(v.with_text(t)),
{
    text::law_list_entries_are_entries(t);
}

/// Typing and switching never change the kind of a field.
pub proof fn law_typing_keeps_the_kind(v: ValueView, t: Seq<char>)
    ensures
        same_kind(v.with_text(t), v),
        same_kind(v.toggled(), v),
        v.with_text(t).editable() == v.editable(),
        !v.editable() ==> v.with_text(t) == v,
{
}

/// Switching runs in cycles: two steps for a switch, three for an optional one,
/// four for the cron behaviour.
pub proof fn law_toggles_cycle(v: ValueView)
    ensures
        v is Boolean ==> v.toggled().toggled() == v,
        v is OptionalBoolean ==> v.toggled().toggled().toggled() == v,
        v is Retrigger ==> v.toggled().toggled().toggled().toggled() == v,
        v.editable() ==> v.toggled() == v,
{
}

/// The start and stop hooks run through nothing, start, stop, and both: from
/// whatever they were, four more steps repeat the first one.
pub proof fn law_auto_behavior_cycles(v: ValueView)
    requires
        v is AutoBehavior,
    ensures
        v.toggled().toggled().toggled().toggled().toggled() == v.toggled(),
        v == ValueView::AutoBehavior(Seq::empty()) ==> v.toggled().toggled().toggled().toggled()
            == v,
{
    let e = Seq::<PitchforkTomlAuto>::empty();
    let start = seq![PitchforkTomlAuto::Start];
    let stop = seq![PitchforkTomlAuto::Stop];
    let both = seq![PitchforkTomlAuto::Start, PitchforkTomlAuto::Stop];
    assert(start[0] == PitchforkTomlAuto::Start && start.contains(start[0]));
    assert(stop[0] == PitchforkTomlAuto::Stop && stop.contains(stop[0]));
    assert(both.contains(both[0]) && both.contains(both[1]));
    assert(!start.contains(PitchforkTomlAuto::Stop));
    assert(!stop.contains(PitchforkTomlAuto::Start));
    assert(!e.contains(PitchforkTomlAuto::Start) && !e.contains(PitchforkTomlAuto::Stop));
}

/// What a text box shows: a text as it is, a number in its decimal notation, a
/// list with commas between its items, and nothing where there is no value.
pub proof fn law_boxes_show_the_value(s: Seq<char>, n: u64, l: Seq<Seq<char>>)
    ensures
        ValueView::Text(s).text() == s,
        ValueView::OptionalText(Some(s)).text() == s,
        ValueView::OptionalText(None).text().len() == 0,
        n <= u32::MAX ==> ValueView::Number(n as u32).text() == text::decimal(n as nat),
        ValueView::OptionalNumber(Some(n)).text() == text::decimal(n as nat),
        ValueView::OptionalNumber(None).text().len() == 0,
        n <= u16::MAX ==> ValueView::OptionalPort(Some(n as u16)).text() == text::decimal(n as nat),
        ValueView::OptionalPort(None).text().len() == 0,
        ValueView::StringList(l).text() == text::joined(l, ", "@),
{
}

/// What is typed becomes the value: a text as it is, an optional one where it
/// is not empty, the number that the text reads as where it does, and the
/// entries of a list. What does not read as a number counts as none, or as zero
/// where there has to be one, and only then is marked as wrong.
pub proof fn law_typed_texts_become_values(f: FieldView, t: Seq<char>)
    ensures
        ({
            let g = f.with_text(t);
            let n = text::parsed_number(text::trimmed(t), u32::MAX as nat);
            &&& f.value is Text ==> g.value == ValueView::Text(t)
            &&& f.value is OptionalText && t.len() > 0 ==> g.value == ValueView::OptionalText(
                Some(t),
            )
            &&& f.value is OptionalText && t.len() == 0 ==> g.value == ValueView::OptionalText(None)
            &&& f.value is Number && n is Some ==> g.value is Number && g.value->Number_0 == n->0
                && g.error is None
            &&& f.value is Number && n is None ==> g.value == ValueView::Number(0)
            &&& f.value is Number && n is None && text::trimmed(t).len() > 0 ==> g.error == Some(
                "Invalid number"@,
            )
            &&& f.value is Number && text::trimmed(t).len() == 0 ==> g.error is None
            &&& f.value is OptionalNumber ==> (g.value matches ValueView::OptionalNumber(v) && (v
                is Some <==> text::parsed_number(t, u64::MAX as nat) is Some) && (v is Some ==> v->0
                == text::parsed_number(t, u64::MAX as nat)->0))
            &&& f.value is OptionalPort ==> (g.value matches ValueView::OptionalPort(v) && (v
                is Some <==> text::parsed_number(t, u16::MAX as nat) is Some) && (v is Some ==> v->0
                == text::parsed_number(t, u16::MAX as nat)->0))
            &&& f.value is StringList ==> g.value == ValueView::StringList(text::list_entries(t))
            &&& f.value !is Number ==> g.error == f.error
            &&& g == (FieldView { value: g.value, error: g.error, ..f })
        }),
{
}

/// What each switch leads to: a switch to its opposite; an optional one from
/// nothing to yes, to no, and to nothing again; the cron behaviour from waiting
/// for the end to always, on success, on failure and back; and the hooks from
/// none to start, to stop, to both, and to none again.
pub proof fn law_switches_lead_on(b: bool, v: Seq<PitchforkTomlAuto>)
    ensures
        ValueView::Boolean(b).toggled() == ValueView::Boolean(!b),
        ValueView::OptionalBoolean(None).toggled() == ValueView::OptionalBoolean(Some(true)),
        ValueView::OptionalBoolean(Some(true)).toggled() == ValueView::OptionalBoolean(Some(false)),
        ValueView::OptionalBoolean(Some(false)).toggled() == ValueView::OptionalBoolean(None),
        ValueView::Retrigger(CronRetrigger::Finish).toggled() == ValueView::Retrigger(
            CronRetrigger::Always,
        ),
        ValueView::Retrigger(CronRetrigger::Always).toggled() == ValueView::Retrigger(
            CronRetrigger::Success,
        ),
        ValueView::Retrigger(CronRetrigger::Success).toggled() == ValueView::Retrigger(
            CronRetrigger::Fail,
        ),
        ValueView::Retrigger(CronRetrigger::Fail).toggled() == ValueView::Retrigger(
            CronRetrigger::Finish,
        ),
        ({
            let start = v.contains(PitchforkTomlAuto::Start);
            let stop = v.contains(PitchforkTomlAuto::Stop);
            let next = ValueView::AutoBehavior(v).toggled();
            &&& !start && !stop ==> next == ValueView::AutoBehavior(seq![PitchforkTomlAuto::Start])
            &&& start && !stop ==> next == ValueView::AutoBehavior(seq![PitchforkTomlAuto::Stop])
            &&& !start && stop ==> next == ValueView::AutoBehavior(
                seq![PitchforkTomlAuto::Start, PitchforkTomlAuto::Stop],
            )
            &&& start && stop ==> next == ValueView::AutoBehavior(Seq::empty())
        }),
{
}

/// A number that is typed into a field of its kind is the field's value.
pub proof fn law_typed_numbers_are_kept(n: nat)
    ensures
        n <= u32::MAX ==> forall|old: u32| #[trigger]
            ValueView::Number(old).with_text(text::decimal(n)) == ValueView::Number(n as u32),
        n <= u64::MAX ==> forall|old: Option<u64>| #[trigger]
            ValueView::OptionalNumber(old).with_text(text::decimal(n)) == ValueView::OptionalNumber(
                Some(n as u64),
            ),
        n <= u16::MAX ==> forall|old: Option<u16>| #[trigger]
            ValueView::OptionalPort(old).with_text(text::decimal(n)) == ValueView::OptionalPort(
                Some(n as u16),
            ),
        n > u16::MAX ==> forall|old: Option<u16>| #[trigger]
            ValueView::OptionalPort(old).with_text(text::decimal(n)) == ValueView::OptionalPort(
                None,
            ),
{
    let d = text::decimal(n);
    text::lemma_decimal(n);
    assert(text::is_digit(d[0]) && text::is_digit(d[d.len() - 1]));
    text::lemma_trimmed_fixed(d);
    assert(text::number_digits(d) == d);
    if n <= u32::MAX {
        text::law_number_round_trip(n, u32::MAX as nat);
    }
    if n <= u64::MAX {
        text::law_number_round_trip(n, u64::MAX as nat);
    }
    if n <= u16::MAX {
        text::law_number_round_trip(n, u16::MAX as nat);
    }
}

/// Values and fields are seen as they are.
pub proof fn law_fields_are_seen_whole(v: FormFieldValue, f: FormField)
    ensures
        v matches FormFieldValue::Text(s) ==> v@ == ValueView::Text(s@),
        v matches FormFieldValue::OptionalText(s) ==> (v@ matches ValueView::OptionalText(t) && (s
            is Some <==> t is Some) && (s is Some ==> t->0 == s->0@)),
        v matches FormFieldValue::Number(n) ==> v@ == ValueView::Number(n),
        v matches FormFieldValue::OptionalNumber(n) ==> v@ == ValueView::OptionalNumber(n),
        v matches FormFieldValue::OptionalPort(p) ==> v@ == ValueView::OptionalPort(p),
        v matches FormFieldValue::Boolean(b) ==> v@ == ValueView::Boolean(b),
        v matches FormFieldValue::OptionalBoolean(b) ==> v@ == ValueView::OptionalBoolean(b),
        v matches FormFieldValue::AutoBehavior(a) ==> v@ == ValueView::AutoBehavior(a@),
        v matches FormFieldValue::Retrigger(r) ==> v@ == ValueView::Retrigger(r),
        v matches FormFieldValue::StringList(l) ==> v@ == ValueView::StringList(
            l@.map_values(|s: String| s@),
        ),
        f@.name == f.name@ && f@.label == f.label@ && f@.help_text == f.help_text@,
        f@.value == f.value@,
        f@.required == f.required && f@.editing == f.editing && f@.cursor == f.cursor,
        f.error is Some ==> f@.error == Some(f.error->0@),
        f.error is None ==> f@.error is None,
{
}

/// Which values are typed in: texts, numbers, ports and lists. Which are of the
/// same kind: those of the same variant.
pub proof fn law_kinds_of_values(v: ValueView, w: ValueView)
    ensures
        v.editable() <==> v is Text || v is OptionalText || v is Number || v is OptionalNumber || v
            is OptionalPort || v is StringList,
        same_kind(v, w) <==> (v is Text && w is Text) || (v is OptionalText && w is OptionalText)
            || (v is Number && w is Number) || (v is OptionalNumber && w is OptionalNumber) || (v
            is OptionalPort && w is OptionalPort) || (v is Boolean && w is Boolean) || (v
            is OptionalBoolean && w is OptionalBoolean) || (v is AutoBehavior && w is AutoBehavior)
            || (v is Retrigger && w is Retrigger) || (v is StringList && w is StringList),
{
}

/// A field that nobody has touched has its texts and its value, and nothing
/// wrong with it.
pub proof fn law_fresh_fields(
    name: Seq<char>,
    label: Seq<char>,
    help_text: Seq<char>,
    required: bool,
    value: ValueView,
)
    ensures
        ({
            let f = fresh_field(name, label, help_text, required, value);
            &&& f.name == name && f.label == label && f.help_text == help_text
            &&& f.required == required && f.value == value
            &&& f.error is None && !f.editing && f.cursor == 0
        }),
{
}

} // verus!
