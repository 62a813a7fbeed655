use pitchfork::config::{
    env_from, CronRetrigger, PitchforkTomlAuto, PitchforkTomlCron, PitchforkTomlDaemon, ReadyHttp,
    Retry,
};
use pitchfork::daemon::DaemonId;
use pitchfork::editor::{EditMode, EditorState};
use pitchfork::form::{FormField, FormFieldValue};

fn field(value: FormFieldValue) -> FormField {
    let mut f = FormField::text("name", "Label", "help", false);
    f.value = value;
    f
}

fn typed(value: FormFieldValue, text: &str) -> FormField {
    let mut f = field(value);
    f.set_text(text.to_string());
    f
}

fn strings(v: &[&str]) -> Vec<String> {
    v.iter().map(|s| s.to_string()).collect()
}

fn full_section() -> PitchforkTomlDaemon {
    let mut c = PitchforkTomlDaemon::default();
    c.run = "npm start".to_string();
    c.dir = Some("web".to_string());
    c.env = Some(env_from(&vec![
        ("NODE_ENV".to_string(), "dev".to_string()),
        ("URL".to_string(), "http://x?a=b".to_string()),
    ]));
    c.auto = vec![PitchforkTomlAuto::Stop];
    c.retry = Retry(2);
    c.ready_delay = Some(500);
    c.ready_output = Some("listening".to_string());
    c.ready_http = Some(ReadyHttp { url: "http://localhost:1".to_string(), status: vec![401] });
    c.ready_port = Some(8080);
    c.ready_cmd = Some("curl x".to_string());
    c.boot_start = Some(false);
    c.depends = vec![DaemonId::new("p", "db"), DaemonId::new("p", "cache")];
    c.watch = strings(&["src/**/*.rs", "Cargo.toml"]);
    c.cron = Some(PitchforkTomlCron {
        schedule: "*/5 * * * *".to_string(),
        retrigger: CronRetrigger::Success,
    });
    c.path = Some("/p/pitchfork.toml".to_string());
    c
}

fn known() -> Vec<(String, DaemonId)> {
    ["db", "cache", "api"]
        .iter()
        .map(|n| (format!("p/{n}"), DaemonId::new("p", n)))
        .collect()
}

fn focus(e: &mut EditorState, name: &str) {
    e.daemon_id_editing = false;
    e.focused_field = e.fields.iter().position(|f| f.name == name).unwrap();
}

#[test]
fn fields_show_their_values() {
    assert_eq!(field(FormFieldValue::Text("x".to_string())).get_text(), "x");
    assert_eq!(field(FormFieldValue::OptionalText(Some("y".to_string()))).get_text(), "y");
    assert_eq!(field(FormFieldValue::OptionalText(None)).get_text(), "");
    assert_eq!(field(FormFieldValue::Number(12)).get_text(), "12");
    assert_eq!(field(FormFieldValue::OptionalNumber(Some(u64::MAX))).get_text(), "18446744073709551615");
    assert_eq!(field(FormFieldValue::OptionalNumber(None)).get_text(), "");
    assert_eq!(field(FormFieldValue::OptionalPort(Some(80))).get_text(), "80");
    assert_eq!(field(FormFieldValue::OptionalPort(None)).get_text(), "");
    assert_eq!(field(FormFieldValue::StringList(strings(&["a", "b"]))).get_text(), "a, b");
    assert_eq!(field(FormFieldValue::Boolean(true)).get_text(), "");
    assert_eq!(field(FormFieldValue::Retrigger(CronRetrigger::Always)).get_text(), "");
}

#[test]
fn numbers_are_read_from_a_field() {
    for (text, n, error) in [
        (" 7 ", 7, None),
        ("", 0, None),
        ("   ", 0, None),
        ("x", 0, Some("Invalid number")),
        ("-1", 0, Some("Invalid number")),
        ("4294967295", u32::MAX, None),
        ("4294967296", 0, Some("Invalid number")),
    ] {
        let mut f = field(FormFieldValue::Number(5));
        f.error = Some("before".to_string());
        f.set_text(text.to_string());
        assert!(matches!(f.value, FormFieldValue::Number(m) if m == n), "{text:?}");
        assert_eq!(f.error.as_deref(), error, "{text:?}");
    }
    assert!(matches!(
        typed(FormFieldValue::OptionalNumber(Some(1)), "x").value,
        FormFieldValue::OptionalNumber(None)
    ));
    assert!(matches!(
        typed(FormFieldValue::OptionalNumber(None), " 1").value,
        FormFieldValue::OptionalNumber(None)
    ));
    assert!(matches!(
        typed(FormFieldValue::OptionalPort(None), "65535").value,
        FormFieldValue::OptionalPort(Some(65535))
    ));
    assert!(matches!(
        typed(FormFieldValue::OptionalPort(None), "65536").value,
        FormFieldValue::OptionalPort(None)
    ));
    let f = typed(FormFieldValue::OptionalText(Some("x".to_string())), "");
    assert!(matches!(f.value, FormFieldValue::OptionalText(None)));
    let f = typed(FormFieldValue::StringList(Vec::new()), " a ,,b");
    assert!(matches!(f.value, FormFieldValue::StringList(v) if v == strings(&["a", "b"])));
    let f = typed(FormFieldValue::Boolean(true), "no");
    assert!(matches!(f.value, FormFieldValue::Boolean(true)));
}

#[test]
fn putting_back_what_a_field_shows_changes_nothing() {
    for value in [
        FormFieldValue::Text("run it".to_string()),
        FormFieldValue::OptionalText(Some("x".to_string())),
        FormFieldValue::OptionalText(None),
        FormFieldValue::Number(77),
        FormFieldValue::OptionalNumber(Some(123)),
        FormFieldValue::OptionalNumber(None),
        FormFieldValue::OptionalPort(Some(1)),
        FormFieldValue::StringList(strings(&["K=V", "é"])),
        FormFieldValue::StringList(Vec::new()),
        FormFieldValue::OptionalBoolean(Some(true)),
    ] {
        let mut f = field(value);
        let before = format!("{f:?}");
        let text = f.get_text();
        f.set_text(text);
        assert_eq!(format!("{f:?}"), before);
    }
}

#[test]
fn a_new_form_has_all_fields() {
    let e = EditorState::new_create("/p/pitchfork.toml".to_string());
    let names: Vec<&str> = e.fields.iter().map(|f| f.name).collect();
    assert_eq!(
        names,
        vec![
            "run", "dir", "env", "auto", "retry", "ready_delay", "ready_output", "ready_http",
            "ready_port", "boot_start", "depends", "watch", "cron_schedule", "cron_retrigger",
        ]
    );
    assert!(e.fields[0].required);
    assert!(e.fields.iter().skip(1).all(|f| !f.required));
    assert!(e.fields.iter().all(|f| !f.editing && f.cursor == 0 && f.error.is_none()));
    assert_eq!(e.fields[8].label, "Ready Port");
    assert_eq!(e.fields[8].help_text, "TCP port to check for readiness (1-65535).");
    assert!(matches!(e.mode, EditMode::Create));
    assert!(e.daemon_id_editing);
    assert!(!e.unsaved_changes);
    let c = e.to_daemon_config(&Vec::new());
    assert_eq!(c.run, "");
    assert_eq!(c.path.as_deref(), Some("/p/pitchfork.toml"));
    assert!(c.env.is_none() && c.cron.is_none() && c.ready_http.is_none());
}

#[test]
fn a_section_survives_being_edited() {
    let c = full_section();
    let e = EditorState::new_edit("p/api".to_string(), &c, "/p/pitchfork.toml".to_string());
    assert!(matches!(&e.mode, EditMode::Edit { original_id } if original_id == "p/api"));
    assert_eq!(e.daemon_id, "p/api");
    assert_eq!(e.fields[2].get_text(), "NODE_ENV=dev, URL=http://x?a=b");
    assert_eq!(e.fields[10].get_text(), "p/db, p/cache");
    assert_eq!(format!("{:?}", e.to_daemon_config(&known())), format!("{c:?}"));
}

#[test]
fn a_section_without_status_codes_survives_too() {
    let mut c = full_section();
    c.ready_http = Some(ReadyHttp::new("http://y".to_string()));
    c.cron = None;
    c.env = None;
    let e = EditorState::new_edit("p/api".to_string(), &c, "/p/pitchfork.toml".to_string());
    assert!(e.preserved_ready_http_status.is_none());
    assert_eq!(format!("{:?}", e.to_daemon_config(&known())), format!("{c:?}"));
}

#[test]
fn what_the_form_does_not_keep_is_lost() {
    let mut c = full_section();
    c.slug = Some("s".to_string());
    c.mise = Some(true);
    let e = EditorState::new_edit("p/api".to_string(), &c, "/q".to_string());
    let back = e.to_daemon_config(&known());
    assert!(back.slug.is_none() && back.mise.is_none());
    assert_eq!(back.path.as_deref(), Some("/q"));
}

#[test]
fn entries_without_a_sign_and_unknown_names_are_dropped() {
    let mut e = EditorState::new_create("/p".to_string());
    focus(&mut e, "env");
    let i = e.focused_field;
    e.fields[i].set_text("A = 1 , nothing, =x, A=2".to_string());
    focus(&mut e, "depends");
    let i = e.focused_field;
    e.fields[i].set_text("p/db, bogus, p/api".to_string());
    let c = e.to_daemon_config(&known());
    let env: Vec<(String, String)> = c.env.unwrap().into_iter().collect();
    assert_eq!(
        env,
        vec![("A".to_string(), "2".to_string()), (String::new(), "x".to_string())]
    );
    let depends: Vec<String> = c.depends.iter().map(|d| d.qualified()).collect();
    assert_eq!(depends, vec!["p/db", "p/api"]);

    focus(&mut e, "env");
    let i = e.focused_field;
    e.fields[i].set_text("nothing, here".to_string());
    assert!(e.to_daemon_config(&known()).env.is_none());
}

#[test]
fn moving_through_the_form() {
    let mut e = EditorState::new_create("/p".to_string());
    e.next_field();
    assert!(!e.daemon_id_editing);
    assert_eq!(e.focused_field, 0);
    e.next_field();
    assert_eq!(e.focused_field, 1);
    e.start_editing();
    assert!(e.is_editing());
    e.next_field();
    assert!(!e.fields[1].editing);
    assert_eq!(e.focused_field, 2);
    e.prev_field();
    e.prev_field();
    e.prev_field();
    assert_eq!(e.focused_field, 0);
    for _ in 0..30 {
        e.next_field();
    }
    assert_eq!(e.focused_field, 13);
}

#[test]
fn switching_runs_in_cycles() {
    let mut e = EditorState::new_create("/p".to_string());
    focus(&mut e, "boot_start");
    let mut seen = Vec::new();
    for _ in 0..3 {
        e.toggle_current_field();
        if let FormFieldValue::OptionalBoolean(b) = &e.fields[e.focused_field].value {
            seen.push(*b);
        }
    }
    assert_eq!(seen, vec![Some(true), Some(false), None]);
    assert!(e.unsaved_changes);

    focus(&mut e, "auto");
    let mut seen = Vec::new();
    for _ in 0..4 {
        e.start_editing();
        if let FormFieldValue::AutoBehavior(v) = &e.fields[e.focused_field].value {
            seen.push(format!("{v:?}"));
        }
    }
    assert_eq!(seen, vec!["[Start]", "[Stop]", "[Start, Stop]", "[]"]);

    focus(&mut e, "cron_retrigger");
    let mut seen = Vec::new();
    for _ in 0..4 {
        e.toggle_current_field();
        if let FormFieldValue::Retrigger(r) = &e.fields[e.focused_field].value {
            seen.push(*r);
        }
    }
    assert_eq!(
        seen,
        vec![
            CronRetrigger::Always,
            CronRetrigger::Success,
            CronRetrigger::Fail,
            CronRetrigger::Finish,
        ]
    );
}

#[test]
fn a_text_field_is_not_switched() {
    let mut e = EditorState::new_create("/p".to_string());
    focus(&mut e, "run");
    e.toggle_current_field();
    assert!(!e.unsaved_changes);
    e.focused_field = 99;
    e.toggle_current_field();
    e.start_editing();
    e.stop_editing();
    assert!(!e.is_editing());
}

#[test]
fn typing_into_the_name() {
    let mut e = EditorState::new_create("/p".to_string());
    for c in "añ🦀".chars() {
        e.text_push(c);
    }
    assert_eq!(e.daemon_id, "añ🦀");
    assert_eq!(e.daemon_id_cursor, 3);
    e.daemon_id_cursor = 1;
    e.text_push('x');
    assert_eq!(e.daemon_id, "axñ🦀");
    e.text_pop();
    assert_eq!(e.daemon_id, "añ🦀");
    assert_eq!(e.daemon_id_cursor, 1);
    e.text_pop();
    e.text_pop();
    assert_eq!(e.daemon_id, "ñ🦀");
    assert!(e.unsaved_changes);
}

#[test]
fn typing_into_a_field() {
    let mut e = EditorState::new_create("/p".to_string());
    focus(&mut e, "run");
    e.text_push('x');
    assert_eq!(e.fields[0].get_text(), "");
    e.start_editing();
    for c in "npm".chars() {
        e.text_push(c);
    }
    assert_eq!(e.fields[0].get_text(), "npm");
    e.text_pop();
    assert_eq!(e.fields[0].get_text(), "np");
    assert_eq!(e.fields[0].cursor, 2);
}

#[test]
fn taking_back_the_last_digit_leaves_a_zero() {
    let mut e = EditorState::new_create("/p".to_string());
    focus(&mut e, "retry");
    e.start_editing();
    assert_eq!(e.fields[e.focused_field].cursor, 1);
    e.text_push('7');
    assert_eq!(e.fields[e.focused_field].get_text(), "7");
    let i = e.focused_field;
    e.fields[i].cursor = 1;
    e.text_pop();
    assert_eq!(e.fields[i].get_text(), "0");
    assert_eq!(e.fields[i].cursor, 1);
}

#[test]
fn a_form_is_checked() {
    let mut e = EditorState::new_create("/p".to_string());
    assert!(!e.validate());
    assert_eq!(e.daemon_id_error.as_deref(), Some("Name is required"));
    assert_eq!(e.fields[0].error.as_deref(), Some("Required"));

    for bad in ["a/b", "a b", "a.b", "ä!"] {
        e.daemon_id = bad.to_string();
        assert!(!e.validate());
        assert_eq!(
            e.daemon_id_error.as_deref(),
            Some("Only letters, digits, hyphens, and underscores allowed"),
            "{bad}"
        );
    }
    e.daemon_id = "api-1_ß日".to_string();
    e.fields[0].set_text("run".to_string());
    assert!(e.validate());
    assert!(e.daemon_id_error.is_none());
    assert!(e.fields[0].error.is_none());

    e.fields[8].set_text("0".to_string());
    assert!(!e.validate());
    assert_eq!(e.fields[8].error.as_deref(), Some("Port must be 1-65535"));
    e.fields[8].set_text("1".to_string());
    e.fields[7].set_text("ftp://x".to_string());
    assert!(!e.validate());
    assert_eq!(e.fields[7].error.as_deref(), Some("Must start with http:// or https://"));
    for good in ["http://x", "https://x", ""] {
        e.fields[7].set_text(good.to_string());
        assert!(e.validate(), "{good}");
    }
}

#[test]
fn a_valid_form_gives_a_sound_section() {
    let mut e = EditorState::new_create("/p".to_string());
    e.daemon_id = "api".to_string();
    for (run, port, http) in [("", "1", ""), ("x", "0", ""), ("x", "80", "ftp://y"), ("x", "80", "http://y")] {
        e.fields[0].set_text(run.to_string());
        e.fields[8].set_text(port.to_string());
        e.fields[7].set_text(http.to_string());
        let valid = e.validate();
        let c = e.to_daemon_config(&Vec::new());
        let url = c.ready_http.map(|h| h.url).unwrap_or("http://".to_string());
        let sound = !c.run.is_empty() && c.ready_port != Some(0) && url.starts_with("http");
        assert_eq!(valid, sound, "{run} {port} {http}");
        assert_eq!(c.path.as_deref(), Some("/p"));
    }
}

#[test]
fn copies_of_a_form_are_equal() {
    let e = EditorState::new_edit("p/api".to_string(), &full_section(), "/p".to_string());
    assert_eq!(format!("{:?}", e.clone()), format!("{e:?}"));
    assert!(e.mode == EditMode::Edit { original_id: "p/api".to_string() });
}

#[test]
fn a_filled_form_has_the_fields_of_the_empty_one() {
    let filled = EditorState::new_edit("p/api".to_string(), &full_section(), "/p".to_string());
    let empty = EditorState::new_create("/p".to_string());
    assert_eq!(filled.fields.len(), empty.fields.len());
    for (f, g) in filled.fields.iter().zip(&empty.fields) {
        assert_eq!((f.name, f.label, f.help_text), (g.name, g.label, g.help_text));
        assert_eq!((f.required, f.editing, f.cursor), (g.required, g.editing, g.cursor));
        assert_eq!(f.error, g.error);
        assert_eq!(std::mem::discriminant(&f.value), std::mem::discriminant(&g.value));
    }
    assert_eq!(filled.fields[4].get_text(), "2");
    assert_eq!(filled.fields[7].get_text(), "http://localhost:1");
    assert_eq!(filled.fields[12].get_text(), "*/5 * * * *");
}

#[test]
fn an_empty_optional_text_shows_the_same_after_typing_and_taking_back() {
    let mut e = EditorState::new_create("/p".to_string());
    focus(&mut e, "dir");
    let i = e.focused_field;
    e.fields[i].value = FormFieldValue::OptionalText(Some(String::new()));
    e.start_editing();
    e.text_push('é');
    assert_eq!(e.fields[i].get_text(), "é");
    e.text_pop();
    assert_eq!((e.fields[i].get_text().as_str(), e.fields[i].cursor), ("", 0));
    assert!(matches!(e.fields[i].value, FormFieldValue::OptionalText(None)));
}

#[test]
fn a_filled_form_has_the_fields_of_an_empty_one() {
    let empty = EditorState::default_fields();
    let filled = EditorState::fields_from_config(&full_section());
    assert_eq!((empty.len(), filled.len()), (14, 14));
    for (a, b) in empty.iter().zip(filled.iter()) {
        assert_eq!((a.name, a.label, a.required), (b.name, b.label, b.required));
        assert_eq!(std::mem::discriminant(&a.value), std::mem::discriminant(&b.value));
    }
}
