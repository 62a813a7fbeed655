use fuzzy_matcher::skim::SkimMatcherV2;
use fuzzy_matcher::FuzzyMatcher;
use pitchfork::app::{
    matching_lines, pids_to_measure, App, PendingAction, SortColumn, SortOrder, Surroundings, View,
};
use pitchfork::config::{PitchforkToml, PitchforkTomlDaemon};
use pitchfork::configure::SaveInput;
use pitchfork::daemon::{Daemon, DaemonId, DaemonListEntry, DaemonStatus, ProcessStats};
use pitchfork::editor::EditMode;
use pitchfork::network::Listener;
use pitchfork::order::{listing, SortKey};
use std::collections::HashMap;

fn daemon(name: &str, pid: Option<u32>, status: DaemonStatus) -> Daemon {
    Daemon {
        id: DaemonId::new("p", name),
        pid,
        status,
        cmd: None,
        dir: None,
        env: None,
        ready_http: None,
        resolved_port: Vec::new(),
    }
}

fn stats(cpu: f32, memory: u64, uptime: u64) -> ProcessStats {
    ProcessStats {
        cpu_bits: cpu.to_bits(),
        memory_bytes: memory,
        uptime_secs: uptime,
        disk_read_bytes: 1,
        disk_write_bytes: 2,
    }
}

fn app(names: &[&str]) -> App {
    let mut a = App::new();
    a.daemons = names
        .iter()
        .enumerate()
        .map(|(i, n)| daemon(n, Some(i as u32), DaemonStatus::Running))
        .collect();
    a
}

fn shown(a: &App) -> Vec<String> {
    a.filtered_daemons().iter().map(|d| d.id.name.clone()).collect()
}

fn quiet() -> Surroundings {
    Surroundings {
        measured: HashMap::new(),
        stat_history: 10,
        now: 100,
        message_duration: 50,
        log: None,
    }
}

fn entry(name: &str, is_disabled: bool, is_available: bool) -> DaemonListEntry {
    DaemonListEntry {
        daemon: daemon(name, Some(7), DaemonStatus::Stopped),
        is_disabled,
        is_available,
    }
}

#[test]
fn names_are_ordered_whatever_their_case() {
    let mut a = app(&["beta", "Alpha", "gamma", "ALPHA2"]);
    assert_eq!(shown(&a), vec!["Alpha", "ALPHA2", "beta", "gamma"]);
    a.toggle_sort_order();
    assert_eq!(shown(&a), vec!["gamma", "beta", "ALPHA2", "Alpha"]);
}

#[test]
fn columns_order_the_list() {
    let mut a = app(&["a", "b", "c", "d"]);
    a.process_stats.insert(0, stats(2.5, 10, 100));
    a.process_stats.insert(1, stats(-0.0, 30, 5));
    a.process_stats.insert(2, stats(100.0, 20, 7));
    a.daemons[0].status = DaemonStatus::Failed("x".to_string());
    a.daemons[1].status = DaemonStatus::Stopped;
    a.daemons[2].status = DaemonStatus::Running;
    a.daemons[3].status = DaemonStatus::Waiting;
    a.cycle_sort();
    assert_eq!(a.sort_column, SortColumn::Status);
    assert_eq!(shown(&a), vec!["c", "d", "b", "a"]);
    a.cycle_sort();
    assert_eq!(a.sort_column, SortColumn::Cpu);
    assert_eq!(shown(&a), vec!["b", "d", "a", "c"]);
    a.cycle_sort();
    assert_eq!(shown(&a), vec!["d", "a", "c", "b"]);
    a.cycle_sort();
    assert_eq!(shown(&a), vec!["d", "b", "c", "a"]);
    a.toggle_sort_order();
    assert_eq!(shown(&a), vec!["a", "c", "b", "d"]);
    a.cycle_sort();
    assert_eq!(a.sort_column, SortColumn::Name);
}

#[test]
fn equal_keys_keep_their_order_in_both_directions() {
    let mut a = app(&["x", "y", "z"]);
    a.sort_column = SortColumn::Memory;
    assert_eq!(shown(&a), vec!["x", "y", "z"]);
    a.toggle_sort_order();
    assert_eq!(shown(&a), vec!["x", "y", "z"]);
}

#[test]
fn a_share_that_is_not_a_number_equals_every_other() {
    let mut a = app(&["x", "y"]);
    a.sort_column = SortColumn::Cpu;
    a.process_stats.insert(0, stats(f32::NAN, 0, 0));
    a.process_stats.insert(1, stats(1.0, 0, 0));
    assert_eq!(shown(&a), vec!["x", "y"]);
    a.daemons.push(daemon("z", None, DaemonStatus::Running));
    let mut all = shown(&a);
    all.sort();
    assert_eq!(all, vec!["x", "y", "z"]);
}

#[test]
fn a_search_shows_what_matches_best_first() {
    let names = ["web-server", "worker", "db", "sewer", "Weber"];
    let mut a = app(&names);
    a.sort_column = SortColumn::Memory;
    for c in "we".chars() {
        a.search_push(c);
    }
    let matcher = SkimMatcherV2::default();
    let mut expected: Vec<(i64, &str)> = names
        .iter()
        .filter_map(|n| matcher.fuzzy_match(&format!("p/{n}"), "we").map(|s| (s, *n)))
        .collect();
    expected.sort_by_key(|e| std::cmp::Reverse(e.0));
    let expected: Vec<&str> = expected.into_iter().map(|e| e.1).collect();
    assert_eq!(shown(&a), expected);
    assert!(!expected.contains(&"db"));
    a.search_push('Z');
    assert!(shown(&a).is_empty());
    a.search_pop();
    assert_eq!(shown(&a), expected);
    a.clear_search();
    assert_eq!(shown(&a).len(), 5);
}

#[test]
fn a_capital_in_a_search_makes_case_count() {
    let mut a = app(&["weber", "Weber"]);
    a.search_push('w');
    assert_eq!(shown(&a).len(), 2);
    a.clear_search();
    a.search_push('W');
    assert_eq!(shown(&a), vec!["Weber"]);
}

#[test]
fn listings_follow_the_keys_then_the_scores_then_the_places() {
    let keys = vec![
        SortKey::Number(2), SortKey::Number(1), SortKey::Number(1), SortKey::Number(1),
        SortKey::Number(0),
    ];
    let scores = vec![Some(0), Some(5), Some(9), Some(5), None];
    assert_eq!(listing(&keys, &scores, false), vec![2, 1, 3, 0]);
    assert_eq!(listing(&keys, &scores, true), vec![0, 2, 1, 3]);
    let texts = vec![
        SortKey::Text("b".chars().collect()), SortKey::Text("ab".chars().collect()),
        SortKey::Text("a".chars().collect()),
    ];
    assert_eq!(listing(&texts, &vec![Some(1), Some(1), Some(1)], false), vec![2, 1, 0]);
}

#[test]
fn the_selection_goes_round() {
    let mut a = app(&["a", "b", "c"]);
    a.select_prev();
    assert_eq!(a.selected, 2);
    a.select_next();
    assert_eq!(a.selected, 0);
    a.select_next();
    assert_eq!(a.selected_daemon().unwrap().id.name, "b");
    let mut none = App::new();
    none.select_next();
    none.select_prev();
    assert_eq!(none.selected, 0);
    assert!(none.selected_daemon().is_none());
}

#[test]
fn daemons_are_marked() {
    let mut a = app(&["b", "a"]);
    assert!(!a.has_selection());
    a.toggle_select();
    assert!(a.is_selected(&DaemonId::new("p", "a")));
    a.select_all_visible();
    assert_eq!(a.selected_daemon_ids().len(), 2);
    a.toggle_select();
    assert!(!a.is_selected(&DaemonId::new("p", "a")));
    assert!(a.has_selection());
    a.clear_selection();
    assert!(!a.has_selection());
    a.selected = 5;
    a.toggle_select();
    assert!(!a.has_selection());
}

#[test]
fn only_what_is_shown_is_marked() {
    let mut a = app(&["web", "db"]);
    a.search_push('w');
    a.select_all_visible();
    assert!(a.is_selected(&DaemonId::new("p", "web")));
    assert!(!a.is_selected(&DaemonId::new("p", "db")));
}

#[test]
fn an_action_waits_for_its_confirmation() {
    let mut a = App::new();
    a.view = View::Logs;
    a.confirm_action(PendingAction::Stop(DaemonId::new("p", "a")));
    assert_eq!(a.view, View::Confirm);
    a.cancel_confirm();
    assert_eq!(a.view, View::Logs);
    assert!(a.pending_action.is_none());
    a.confirm_action(PendingAction::DiscardEditorChanges);
    assert!(matches!(a.take_pending_action(), Some(PendingAction::DiscardEditorChanges)));
    assert_eq!(a.view, View::Logs);
    assert!(a.take_pending_action().is_none());
}

#[test]
fn messages_go_stale() {
    let mut a = App::new();
    a.set_message("hi".to_string(), 100);
    a.clear_stale_message(149, 50);
    assert_eq!(a.message.as_deref(), Some("hi"));
    a.clear_stale_message(50, 1);
    assert!(a.message.is_some());
    a.clear_stale_message(150, 50);
    assert!(a.message.is_none() && a.message_time.is_none());
    a.clear_stale_message(999, 0);
}

#[test]
fn orders_and_columns_cycle() {
    let mut c = SortColumn::default();
    for _ in 0..5 {
        c = c.next();
    }
    assert_eq!(c, SortColumn::Name);
    assert_eq!(SortOrder::default().toggle().toggle(), SortOrder::Ascending);
    assert_eq!(SortOrder::Ascending.indicator(), "↑");
    assert_eq!(SortOrder::Descending.indicator(), "↓");
}

#[test]
fn a_refresh_takes_over_the_list() {
    let mut a = app(&["old1", "old2", "old3"]);
    a.selected = 2;
    a.set_message("hello".to_string(), 10);
    let entries = vec![entry("a", true, false), entry("b", false, true), entry("c", true, true)];
    assert_eq!(pids_to_measure(&entries, true), vec![7, 7, 7]);
    assert_eq!(pids_to_measure(&entries, false), vec![7]);
    let mut at = quiet();
    at.measured.insert(7, stats(1.0, 5, 6));
    at.measured.insert(8, stats(2.0, 6, 7));
    a.apply_refresh(entries, &at);
    assert_eq!(shown(&a), vec!["a", "b", "c"]);
    assert!(a.is_disabled(&DaemonId::new("p", "c")));
    assert!(!a.is_disabled(&DaemonId::new("p", "b")));
    assert!(a.is_config_only(&DaemonId::new("p", "b")));
    assert!(!a.is_config_only(&DaemonId::new("p", "a")));
    assert!(a.message.is_none());
    assert_eq!(a.get_stats(7).unwrap().memory_bytes, 5);
    assert!(a.get_stats(8).is_none());
    assert_eq!(a.get_stats_history(&DaemonId::new("p", "a")).unwrap().memory_values(), vec![5]);
    assert!(a.get_stats_history(&DaemonId::new("p", "x")).is_none());

    a.toggle_show_available();
    a.apply_refresh(vec![entry("a", false, false), entry("b", false, true)], &at);
    assert_eq!(shown(&a), vec!["a"]);
    assert_eq!(a.selected, 0);
    assert_eq!(a.stats(), (1, 0, 1, 0, 1));
    assert_eq!(
        a.get_stats_history(&DaemonId::new("p", "a")).unwrap().memory_values(),
        vec![5, 5]
    );
}

#[test]
fn daemons_are_counted() {
    let mut a = App::new();
    let mut running = entry("r", false, false);
    running.daemon.status = DaemonStatus::Running;
    let mut errored = entry("e", false, false);
    errored.daemon.status = DaemonStatus::Errored(1);
    let mut failed = entry("f", false, false);
    failed.daemon.status = DaemonStatus::Failed("no".to_string());
    a.apply_refresh(
        vec![running, errored, failed, entry("s", false, false), entry("c", false, true)],
        &quiet(),
    );
    assert_eq!(a.stats(), (5, 1, 1, 2, 1));
}

#[test]
fn logs_are_shown_from_their_end() {
    let mut a = App::new();
    let id = DaemonId::new("p", "a");
    a.view_daemon_details(&id, &Some("one\ntwo\r\nthree".to_string()));
    assert_eq!(a.log_content, vec!["one", "two", "three"]);
    assert_eq!(a.log_scroll, 3);
    assert_eq!(a.view, View::Logs);
    a.toggle_log_follow();
    assert!(!a.log_follow);
    a.scroll_logs_up();
    assert_eq!(a.log_scroll, 2);
    a.scroll_logs_up();
    a.scroll_logs_up();
    assert_eq!(a.log_scroll, 1);
    a.scroll_logs_down();
    assert_eq!(a.log_scroll, 2);
    a.scroll_logs_page_down(20);
    assert_eq!(a.log_scroll, 3);
    a.scroll_logs_page_up(2);
    assert_eq!(a.log_scroll, 2);
    a.toggle_log_follow();
    assert_eq!(a.log_scroll, 3);
    let mut at = quiet();
    at.log = Some("a\nb\nc\nd".to_string());
    a.apply_refresh(Vec::new(), &at);
    assert_eq!(a.log_scroll, 4);
    at.log = None;
    a.apply_refresh(Vec::new(), &at);
    assert_eq!(a.log_content, vec!["No logs available"]);
    a.toggle_logs_expanded();
    assert!(a.logs_expanded);
    a.back_to_dashboard();
    assert!(a.log_content.is_empty() && a.log_daemon_id.is_none());
    assert_eq!(a.view, View::Dashboard);
    a.show_help();
    assert_eq!(a.view, View::Help);
    a.show_details(&id);
    assert_eq!(a.prev_view, View::Help);
    a.hide_details();
    assert!(a.details_daemon_id.is_none());
}

#[test]
fn logs_are_searched() {
    let mut a = App::new();
    let log: Vec<String> =
        (0..40).map(|i| if i % 13 == 5 { format!("Error ÄÖ {i}") } else { "fine".to_string() }).collect();
    a.view_daemon_details(&DaemonId::new("p", "a"), &Some(log.join("\n")));
    a.start_log_search();
    for c in "error ä".chars() {
        a.log_search_push(c);
    }
    assert_eq!(a.log_search_matches, vec![5, 18, 31]);
    assert_eq!(a.log_scroll, 1);
    assert!(!a.log_follow);
    a.log_search_next();
    assert_eq!((a.log_search_current, a.log_scroll), (1, 8));
    a.log_search_prev();
    a.log_search_prev();
    assert_eq!((a.log_search_current, a.log_scroll), (2, 21));
    a.log_search_next();
    assert_eq!(a.log_search_current, 0);
    a.log_search_push('?');
    assert!(a.log_search_matches.is_empty());
    a.log_search_next();
    a.log_search_prev();
    a.log_search_pop();
    assert_eq!(a.log_search_matches.len(), 3);
    a.end_log_search();
    assert!(!a.log_search_active);
    a.clear_log_search();
    assert!(a.log_search_query.is_empty() && a.log_search_matches.is_empty());
    assert_eq!(
        matching_lines(&vec!["ab".to_string(), "b".to_string(), "cab".to_string()], "ab"),
        vec![0, 2]
    );
}

fn listeners() -> Vec<Listener> {
    [("nginx", 10, 80), ("node", 20, 3000), ("postgres", 30, 5432)]
        .iter()
        .map(|(n, pid, port)| Listener { name: n.to_string(), pid: *pid, port: *port })
        .collect()
}

#[test]
fn listeners_are_searched_by_name_process_and_port() {
    let mut a = App::new();
    a.apply_network_refresh(listeners());
    assert_eq!(a.network_selected_pid, Some(10));
    a.toggle_network_search();
    assert!(a.network_search_active);
    a.network_search_query = "3000".to_string();
    let found: Vec<u32> = a.filtered_network_listeners().iter().map(|l| l.pid).collect();
    assert_eq!(found, vec![20]);
    a.network_selected = 2;
    a.apply_network_refresh(listeners());
    assert_eq!((a.network_selected, a.network_selected_pid), (0, Some(20)));
    a.network_search_query = "zzz".to_string();
    a.apply_network_refresh(listeners());
    assert_eq!((a.network_selected, a.network_selected_pid), (0, None));
    a.toggle_network_search();
    assert_eq!(a.network_search_query, "");
    assert_eq!(a.network_selected_pid, Some(10));
    a.network_selected = 9;
    a.apply_network_refresh(listeners());
    assert_eq!((a.network_selected, a.network_selected_pid), (2, Some(30)));
    a.network_search_query = "pg".to_string();
    a.clear_network_search();
    assert_eq!((a.network_selected, a.network_selected_pid), (0, Some(10)));
    let all: Vec<u32> = a.filtered_network_listeners().iter().map(|l| l.pid).collect();
    assert_eq!(all, vec![10, 20, 30]);
}

#[test]
fn files_to_choose_from_hold_the_local_one() {
    let mut a = App::new();
    let files = a.get_config_files(vec!["/etc/x.toml".to_string()], "/here");
    assert_eq!(files, vec!["/etc/x.toml", "/here/pitchfork.toml"]);
    let files = a.get_config_files(vec!["/here//pitchfork.toml".to_string()], "/here/");
    assert_eq!(files, vec!["/here//pitchfork.toml"]);
    a.open_file_selector(Vec::new(), "/here");
    assert_eq!(a.view, View::ConfigFileSelect);
    assert_eq!(a.file_selector.as_ref().unwrap().files, vec!["/here/pitchfork.toml"]);
    a.open_editor_create("/f".to_string());
    assert!(a.file_selector.is_none());
    assert_eq!(a.view, View::ConfigEditor);
    a.close_editor();
    assert!(a.editor_state.is_none());
    assert_eq!(a.view, View::Dashboard);
}

fn content(names: &[&str]) -> PitchforkToml {
    let mut pt = PitchforkToml::new();
    for n in names {
        let mut c = PitchforkTomlDaemon::default();
        c.run = format!("run {n}");
        pt.insert(&DaemonId::new("p", n), c);
    }
    pt
}

#[test]
fn the_editor_opens_on_what_is_configured() {
    let mut a = App::new();
    let id = DaemonId::new("p", "api");
    a.open_editor_edit(&id, &Err("broken".to_string()), "/here", 1);
    assert_eq!(a.message.as_deref(), Some("Failed to load config: broken"));
    a.open_editor_edit(&id, &Ok(content(&["db"])), "/here", 1);
    assert_eq!(a.message.as_deref(), Some("Daemon 'p/api' not found in config"));
    assert!(a.editor_state.is_none());
    a.open_editor_edit(&id, &Ok(content(&["api"])), "/here", 1);
    let e = a.editor_state.as_ref().unwrap();
    assert_eq!(e.config_path, "/here/pitchfork.toml");
    assert_eq!(e.fields[0].get_text(), "run api");
    assert!(matches!(&e.mode, EditMode::Edit { original_id } if original_id == "p/api"));
}

fn input(name: &str, original: &str, config: PitchforkToml) -> SaveInput {
    SaveInput {
        daemon_id: Ok(DaemonId::new("p", name)),
        original_id: Ok(DaemonId::new("p", original)),
        config: Ok(config),
        known: Vec::new(),
    }
}

fn editing(name: &str) -> App {
    let mut a = App::new();
    a.open_editor_create("/f".to_string());
    let e = a.editor_state.as_mut().unwrap();
    e.daemon_id = name.to_string();
    e.fields[0].set_text("run it".to_string());
    e.unsaved_changes = true;
    a
}

fn names(pt: &PitchforkToml) -> Vec<String> {
    pt.ids().iter().map(|i| i.name.clone()).collect()
}

#[test]
fn a_new_daemon_is_saved() {
    let mut a = editing("api");
    let written = a.save_editor_config(input("api", "", content(&["db"])), 1).unwrap().unwrap();
    assert_eq!(names(&written), vec!["db", "api"]);
    assert_eq!(written.get(&DaemonId::new("p", "api")).unwrap().run, "run it");
    assert_eq!(a.finish_save(Ok(()), 2), Ok(true));
    assert!(!a.editor_state.as_ref().unwrap().unsaved_changes);
    assert_eq!(a.message.as_deref(), Some("Saved daemon 'api'"));
    assert_eq!(a.finish_save(Err("disk full".to_string()), 3), Err("disk full".to_string()));
}

#[test]
fn a_name_that_is_taken_is_refused() {
    let mut a = editing("db");
    assert!(a.save_editor_config(input("db", "", content(&["db"])), 1).unwrap().is_none());
    assert_eq!(a.message.as_deref(), Some("A daemon named 'p/db' already exists"));
    let e = a.editor_state.as_mut().unwrap();
    e.mode = EditMode::Edit { original_id: "p/api".to_string() };
    assert!(a.save_editor_config(input("db", "api", content(&["db", "api"])), 1).unwrap().is_none());
}

#[test]
fn a_renamed_daemon_leaves_its_old_place() {
    let mut a = editing("new");
    a.editor_state.as_mut().unwrap().mode = EditMode::Edit { original_id: "p/old".to_string() };
    let written = a
        .save_editor_config(input("new", "old", content(&["old", "db"])), 1)
        .unwrap()
        .unwrap();
    assert_eq!(names(&written), vec!["db", "new"]);
    let written = a
        .save_editor_config(input("old", "old", content(&["old", "db"])), 1)
        .unwrap()
        .unwrap();
    assert_eq!(names(&written), vec!["old", "db"]);
}

#[test]
fn saving_fails_for_good_reasons() {
    let mut a = App::new();
    assert_eq!(
        a.save_editor_config(input("x", "x", content(&[])), 1).unwrap_err(),
        "No editor state"
    );
    assert_eq!(a.finish_save(Ok(()), 1), Err("No editor state".to_string()));
    let mut a = editing("not valid!");
    assert!(a.save_editor_config(input("x", "x", content(&[])), 1).unwrap().is_none());
    assert_eq!(a.message.as_deref(), Some("Please fix validation errors before saving"));
    let mut a = editing("x");
    let mut bad = input("x", "x", content(&[]));
    bad.daemon_id = Err("no".to_string());
    assert_eq!(a.save_editor_config(bad, 1).unwrap_err(), "Invalid daemon ID: no");
    let mut bad = input("x", "x", content(&[]));
    bad.config = Err("unreadable".to_string());
    assert_eq!(a.save_editor_config(bad, 1).unwrap_err(), "unreadable");
    let mut bad = input("x", "x", content(&[]));
    bad.original_id = Err("odd".to_string());
    assert!(a.save_editor_config(bad, 1).unwrap().is_some());
    a.editor_state.as_mut().unwrap().mode = EditMode::Edit { original_id: "?".to_string() };
    let mut bad = input("x", "x", content(&[]));
    bad.original_id = Err("odd".to_string());
    assert_eq!(a.save_editor_config(bad, 1).unwrap_err(), "Invalid original daemon ID: odd");
}

#[test]
fn daemons_are_deleted() {
    let id = || Ok(DaemonId::new("p", "a"));
    let after = App::delete_daemon_from_config(Ok(content(&["a", "b"])), id()).unwrap().unwrap();
    assert_eq!(names(&after), vec!["b"]);
    assert!(App::delete_daemon_from_config(Ok(content(&["b"])), id()).unwrap().is_none());
    assert_eq!(App::delete_daemon_from_config(Err("r".to_string()), id()).unwrap_err(), "r");
    assert_eq!(
        App::delete_daemon_from_config(Ok(content(&[])), Err("i".to_string())).unwrap_err(),
        "i"
    );
    assert!(App::is_qualified("p/a"));
    assert!(!App::is_qualified("a"));
}

#[test]
fn what_is_under_way_is_shown() {
    let mut a = App::default();
    a.start_loading("Working".to_string());
    assert_eq!(a.loading_text.as_deref(), Some("Working"));
    a.stop_loading();
    assert!(a.loading_text.is_none());
    a.start_search();
    assert!(a.search_active);
    a.end_search();
    assert!(!a.search_active);
}

#[test]
fn a_refresh_that_failed_changes_nothing() {
    let mut a = app(&["a"]);
    assert_eq!(a.refresh(Err("down".to_string()), &quiet()), Err("down".to_string()));
    assert_eq!(shown(&a), vec!["a"]);
    assert_eq!(a.refresh(Ok(vec![entry("b", false, false)]), &quiet()), Ok(()));
    assert_eq!(shown(&a), vec!["b"]);
}

#[test]
fn typing_never_shows_more() {
    let mut a = app(&["web", "Worker", "db", "webhook", "WEB"]);
    let mut before = shown(&a).len();
    assert_eq!(before, 5);
    for c in "p/weBx".chars() {
        a.search_push(c);
        let now = shown(&a);
        assert!(now.len() <= before, "{c}");
        before = now.len();
    }
    assert_eq!(before, 0);
}
