use session_list::builder::collect_sessions;
use session_list::flatten::collect_commands_recursive;
use session_list::json::render_sessions_json;
use session_list::listing::list_sessions_long;
use session_list::model::{
    FloatingPaneLayout, Layout, Run, RunCommand, RunPluginOrAlias, Session, SessionDuration, Tab,
    TiledPaneLayout,
};
use session_list::render::{
    display_plugin_or_alias, display_run, render_session, render_session_by_name,
    render_sessions, render_unformatted_session,
};
use session_list::sort::sort_sessions;

fn secs(n: u64) -> SessionDuration {
    SessionDuration { secs: n, nanos: 0 }
}

fn vim_command() -> Run {
    Run::Command(RunCommand {
        command: "vim".to_string(),
        args: vec!["notes.md".to_string()],
        cwd: Some("/home/u".to_string()),
    })
}

fn leaf(run: Option<Run>) -> TiledPaneLayout {
    TiledPaneLayout { run, children: vec![] }
}

fn work_session() -> Session {
    let tile = TiledPaneLayout { run: None, children: vec![leaf(Some(vim_command()))] };
    let layout = Layout { tabs: vec![(Some("main".to_string()), tile, vec![])] };
    Session::new("work".to_string(), secs(3600), Some(layout), false, false)
}

#[test]
fn scenario_work_plain() {
    let out = render_unformatted_session(&work_session());
    assert_eq!(out, "work Created 1h ago\nmain:\nRunning: vim notes.md\n");
}

#[test]
fn scenario_work_colorized() {
    let out = render_session(&work_session());
    assert_eq!(
        out,
        "\u{1b}[32;1mwork\u{1b}[m [Created \u{1b}[35;1m1h\u{1b}[m ago]\n\
         \u{1b}[36;1mmain\u{1b}[m:\n \u{1b}[35;1mRunning:\u{1b}[m vim notes.md\n\n"
    );
}

#[test]
fn current_marker_is_undecorated() {
    let mut s = work_session();
    s.is_current = true;
    let plain = render_unformatted_session(&s);
    assert!(plain.starts_with("work Created 1h ago (current)\n"));
    let color = render_session(&s);
    assert!(color.contains("\u{1b}[m ago] (current)\n"));
}

#[test]
fn flatten_depth_first_preorder_then_floating() {
    let a = Run::Cwd("/a".to_string());
    let b = Run::Cwd("/b".to_string());
    let c = Run::Cwd("/c".to_string());
    let d = Run::Cwd("/d".to_string());
    let e = Run::Cwd("/e".to_string());
    let tile = TiledPaneLayout {
        run: Some(a.clone()),
        children: vec![
            TiledPaneLayout {
                run: Some(b.clone()),
                children: vec![leaf(Some(c.clone())), leaf(None)],
            },
            leaf(Some(d.clone())),
        ],
    };
    let floating = vec![
        FloatingPaneLayout { run: None },
        FloatingPaneLayout { run: Some(e.clone()) },
    ];
    let tab = Tab::new(None, tile, floating);
    assert_eq!(tab.commands, vec![a, b, c, d, e]);
}

#[test]
fn flatten_empty_tree_yields_empty() {
    let mut buf: Vec<Run> = Vec::new();
    collect_commands_recursive(leaf(None), &mut buf);
    assert!(buf.is_empty());
    let tab = Tab::new(Some("t".to_string()), leaf(None), vec![]);
    assert!(tab.commands.is_empty());
}

#[test]
fn flatten_visits_runless_children() {
    let deep = Run::EditFile("/deep".to_string());
    let tile = TiledPaneLayout {
        run: None,
        children: vec![TiledPaneLayout { run: None, children: vec![leaf(Some(deep.clone()))] }],
    };
    let tab = Tab::new(None, tile, vec![]);
    assert_eq!(tab.commands, vec![deep]);
}

#[test]
fn scenario_no_layout_prints_notice() {
    let s = Session::new("gone".to_string(), secs(3600), None, false, false);
    assert!(s.tabs.is_empty());
    let plain = render_unformatted_session(&s);
    assert_eq!(plain, "gone Created 1h ago\nNo running commands\n");
    let color = render_session(&s);
    assert!(color.contains("  No running commands\n"));
}

#[test]
fn scenario_lookup_absent_name() {
    let sessions = vec![work_session()];
    let out = render_session_by_name(&sessions, "missing", true);
    assert_eq!(out, "No session found with the name missing\n");
}

#[test]
fn lookup_finds_exact_name() {
    let mut other = work_session();
    other.name = "other".to_string();
    let sessions = vec![other, work_session()];
    let out = render_session_by_name(&sessions, "work", true);
    assert!(out.starts_with("work Created 1h ago\n"));
}

#[test]
fn scenario_unnamed_tab_placeholder() {
    let layout = Layout { tabs: vec![(None, leaf(Some(vim_command())), vec![])] };
    let s = Session::new("s".to_string(), secs(60), Some(layout), false, false);
    let plain = render_unformatted_session(&s);
    assert!(plain.contains("<Unnamed Tab>:\n"));
    let color = render_session(&s);
    assert!(color.contains("\u{1b}[36;1m<Unnamed Tab>\u{1b}[m:\n"));
    let doc = render_sessions_json(&vec![s]);
    assert!(doc.contains("\"name\":null"));
    assert!(!doc.contains("<Unnamed Tab>"));
}

#[test]
fn sort_descending_by_default() {
    let mut v = vec![
        Session::new("old".to_string(), secs(10), None, false, false),
        Session::new("new".to_string(), secs(30), None, false, false),
        Session::new("mid".to_string(), secs(20), None, false, false),
    ];
    sort_sessions(&mut v, false);
    let names: Vec<&str> = v.iter().map(|s| s.name.as_str()).collect();
    assert_eq!(names, vec!["new", "mid", "old"]);
}

#[test]
fn sort_ascending_when_reversed() {
    let mut v = vec![
        Session::new("old".to_string(), secs(10), None, false, false),
        Session::new("new".to_string(), secs(30), None, false, false),
        Session::new("mid".to_string(), secs(20), None, false, false),
    ];
    sort_sessions(&mut v, true);
    let names: Vec<&str> = v.iter().map(|s| s.name.as_str()).collect();
    assert_eq!(names, vec!["old", "mid", "new"]);
}

#[test]
fn sort_breaks_second_ties_by_nanos() {
    let mut v = vec![
        Session::new("late".to_string(), SessionDuration { secs: 5, nanos: 900 }, None, false, false),
        Session::new("soon".to_string(), SessionDuration { secs: 5, nanos: 100 }, None, false, false),
    ];
    sort_sessions(&mut v, true);
    assert_eq!(v[0].name, "soon");
    assert_eq!(v[1].name, "late");
}

#[test]
fn sort_keeps_equal_timestamp_entries() {
    let mut v = vec![
        Session::new("a".to_string(), secs(7), None, false, false),
        Session::new("b".to_string(), secs(7), None, false, false),
    ];
    sort_sessions(&mut v, false);
    let mut names: Vec<&str> = v.iter().map(|s| s.name.as_str()).collect();
    names.sort();
    assert_eq!(names, vec!["a", "b"]);
}

#[test]
fn display_run_plain_variants() {
    assert_eq!(display_run(&vim_command(), false), "Running: vim notes.md");
    assert_eq!(
        display_run(&Run::EditFile("/etc/hosts".to_string()), false),
        "File: /etc/hosts"
    );
    assert_eq!(display_run(&Run::Cwd("/tmp".to_string()), false), "CWD: /tmp");
    assert_eq!(
        display_run(
            &Run::Plugin(RunPluginOrAlias::Alias { name: "zjstatus".to_string() }),
            false
        ),
        "Plugin: zjstatus"
    );
}

#[test]
fn display_run_colorizes_label_only() {
    assert_eq!(
        display_run(&Run::EditFile("/etc/hosts".to_string()), true),
        "\u{1b}[35;1mFile:\u{1b}[m /etc/hosts"
    );
}

#[test]
fn display_run_empty_args_keeps_trailing_space() {
    let run = Run::Command(RunCommand {
        command: "htop".to_string(),
        args: vec![],
        cwd: None,
    });
    assert_eq!(display_run(&run, false), "Running: htop ");
}

#[test]
fn display_plugin_direct_location() {
    let p = RunPluginOrAlias::RunPlugin { location: "file:/x.wasm".to_string() };
    assert_eq!(display_plugin_or_alias(&p), "file:/x.wasm");
}

#[test]
fn collect_sessions_resolves_flags() {
    let res = collect_sessions(
        "work".to_string(),
        vec!["beta".to_string()],
        vec![
            ("work".to_string(), secs(5), None),
            ("beta".to_string(), secs(6), None),
        ],
    );
    assert_eq!(res.len(), 2);
    assert_eq!(res[0].name, "work");
    assert!(res[0].is_current);
    assert!(!res[0].is_active);
    assert!(res[0].tabs.is_empty());
    assert!(!res[1].is_current);
    assert!(res[1].is_active);
}

#[test]
fn collect_sessions_failed_current_lookup_matches_nothing() {
    let res = collect_sessions(
        String::new(),
        vec![],
        vec![("work".to_string(), secs(5), None)],
    );
    assert!(!res[0].is_current);
}

#[test]
fn json_round_trip_command() {
    let doc = render_sessions_json(&vec![work_session()]);
    let v: serde_json::Value = serde_json::from_str(&doc).unwrap();
    let cmd = &v[0]["tabs"][0]["commands"][0];
    assert_eq!(cmd["command"].as_str().unwrap(), "vim notes.md");
    assert_eq!(cmd["cwd"].as_str().unwrap(), "/home/u");
}

#[test]
fn json_missing_cwd_is_empty_string() {
    let run = Run::Command(RunCommand {
        command: "htop".to_string(),
        args: vec![],
        cwd: None,
    });
    let layout = Layout { tabs: vec![(Some("t".to_string()), leaf(Some(run)), vec![])] };
    let s = Session::new("s".to_string(), secs(1), Some(layout), false, false);
    let doc = render_sessions_json(&vec![s]);
    let v: serde_json::Value = serde_json::from_str(&doc).unwrap();
    let cmd = &v[0]["tabs"][0]["commands"][0];
    assert_eq!(cmd["cwd"].as_str().unwrap(), "");
}

#[test]
fn json_document_shape() {
    let mut s = work_session();
    s.is_active = true;
    s.timestamp = SessionDuration { secs: 3600, nanos: 500_000_000 };
    let doc = render_sessions_json(&vec![s]);
    let v: serde_json::Value = serde_json::from_str(&doc).unwrap();
    assert!(v.is_array());
    assert_eq!(v[0]["name"].as_str().unwrap(), "work");
    assert_eq!(v[0]["timestamp"]["secs"].as_u64().unwrap(), 3600);
    assert_eq!(v[0]["timestamp"]["nanos"].as_u64().unwrap(), 500_000_000);
    assert!(!v[0]["is_current"].as_bool().unwrap());
    assert!(v[0]["is_active"].as_bool().unwrap());
    assert_eq!(v[0]["tabs"][0]["name"].as_str().unwrap(), "main");
}

#[test]
fn json_non_command_runs_encode_as_strings() {
    let tile = TiledPaneLayout {
        run: Some(Run::EditFile("/etc/hosts".to_string())),
        children: vec![leaf(Some(Run::Plugin(RunPluginOrAlias::Alias {
            name: "zjstatus".to_string(),
        })))],
    };
    let layout = Layout { tabs: vec![(Some("t".to_string()), tile, vec![])] };
    let s = Session::new("s".to_string(), secs(1), Some(layout), false, false);
    let doc = render_sessions_json(&vec![s]);
    let v: serde_json::Value = serde_json::from_str(&doc).unwrap();
    assert_eq!(v[0]["tabs"][0]["commands"][0].as_str().unwrap(), "File: /etc/hosts");
    assert_eq!(v[0]["tabs"][0]["commands"][1].as_str().unwrap(), "Plugin: zjstatus");
}

#[test]
fn json_escapes_special_characters() {
    let name = "a\"b\\c\nd\u{1}e\tf";
    let s = Session::new(name.to_string(), secs(1), None, false, false);
    let doc = render_sessions_json(&vec![s]);
    let v: serde_json::Value = serde_json::from_str(&doc).unwrap();
    assert_eq!(v[0]["name"].as_str().unwrap(), name);
}

#[test]
fn listing_renders_twice_identically() {
    let sessions = vec![work_session(), Session::new("idle".to_string(), secs(9), None, true, true)];
    let a = list_sessions_long(sessions.clone(), false, true, false);
    let b = list_sessions_long(sessions.clone(), false, true, false);
    assert_eq!(a, b);
    let c = list_sessions_long(sessions.clone(), true, false, false);
    let d = list_sessions_long(sessions, true, false, false);
    assert_eq!(c, d);
}

#[test]
fn listing_orders_and_concatenates_plain() {
    let sessions = vec![
        Session::new("old".to_string(), secs(60), None, false, false),
        Session::new("new".to_string(), secs(120), None, false, false),
    ];
    let out = list_sessions_long(sessions, false, true, false);
    assert_eq!(
        out,
        "new Created 2m ago\nNo running commands\nold Created 1m ago\nNo running commands\n"
    );
}

#[test]
fn listing_json_mode_ends_with_newline() {
    let sessions = vec![work_session()];
    let out = list_sessions_long(sessions, true, false, false);
    assert!(out.starts_with('['));
    assert!(out.ends_with("]\n"));
    let v: serde_json::Value = serde_json::from_str(&out).unwrap();
    assert_eq!(v[0]["name"].as_str().unwrap(), "work");
}

#[test]
fn listing_reverse_is_oldest_first() {
    let sessions = vec![
        Session::new("old".to_string(), secs(60), None, false, false),
        Session::new("new".to_string(), secs(120), None, false, false),
    ];
    let out = list_sessions_long(sessions, false, true, true);
    assert!(out.starts_with("old Created 1m ago\n"));
}

#[test]
fn zero_duration_humanizes_as_zero_seconds() {
    let s = Session::new("fresh".to_string(), secs(0), None, false, false);
    let out = render_unformatted_session(&s);
    assert_eq!(out, "fresh Created 0s ago\nNo running commands\n");
}

#[test]
fn colorized_sessions_separated_by_blank_line() {
    let sessions = vec![
        Session::new("b".to_string(), secs(2), None, false, false),
        Session::new("a".to_string(), secs(1), None, false, false),
    ];
    let out = render_sessions(&sessions, true);
    assert!(out.contains("commands\n\n\u{1b}[32;1m"));
    assert!(out.ends_with("\n\n"));
}
