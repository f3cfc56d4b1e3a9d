use agent_dashboard::input::{step, Key};
use agent_dashboard::refresh::{refresh, RawArtifacts, RefreshMode};
use agent_dashboard::render::{
    centered_rect, draw_agent_list, draw_help, draw_logs, draw_metrics, draw_orchestrator, render,
    PanelContent, Rect, SeverityClass,
};
use agent_dashboard::logs::LogFile;
use agent_dashboard::state::{AppState, RightPanel, SemgrepAlert};

fn empty_raw() -> RawArtifacts {
    RawArtifacts {
        agent_files: Vec::new(),
        queue: None,
        log_files: Vec::new(),
        memory: None,
        alerts: None,
    }
}

#[test]
fn empty_project_root_leaves_everything_empty() {
    let mut s = AppState::default();
    refresh(&mut s, empty_raw(), RefreshMode::Full);
    assert!(s.agents.is_empty());
    assert!(s.commands.is_empty());
    assert!(s.logs.is_empty());
    assert!(s.memory_series.is_empty());
    assert!(s.semgrep_alerts.is_empty());
    assert!(matches!(s.right_panel, RightPanel::Orchestrator));
    let m = render(&s, 100, 40);
    assert!(m.agent_rows.is_empty());
    match m.panel {
        PanelContent::Orchestrator(cmds) => assert!(cmds.is_empty()),
        _ => panic!("expected the orchestrator panel"),
    }
    assert!(m.help.is_none());
}

fn raw_with_memory(used: u64) -> RawArtifacts {
    let mut raw = empty_raw();
    raw.memory = Some(format!("{{\"used\": {}}}", used));
    raw
}

#[test]
fn memory_series_slides_and_evicts_exactly_the_oldest() {
    let mut s = AppState::default();
    for i in 0..101u64 {
        refresh(&mut s, raw_with_memory(i), RefreshMode::Full);
    }
    assert_eq!(s.memory_series.len(), 100);
    // sample 0 was evicted, samples 1..=100 remain in order
    assert_eq!(s.memory_series[0], 1);
    assert_eq!(s.memory_series[99], 100);
}

#[test]
fn failed_memory_read_leaves_the_series_unchanged() {
    let mut s = AppState::default();
    refresh(&mut s, raw_with_memory(7), RefreshMode::Full);
    assert_eq!(s.memory_series, vec![7]);
    refresh(&mut s, empty_raw(), RefreshMode::Full);
    assert_eq!(s.memory_series, vec![7]);
    let mut raw = empty_raw();
    raw.memory = Some("{oops".to_string());
    refresh(&mut s, raw, RefreshMode::Full);
    assert_eq!(s.memory_series, vec![7]);
    // a parsed document without an unsigned `used` field is a failed read too
    let mut raw = empty_raw();
    raw.memory = Some("{\"total\": 9}".to_string());
    refresh(&mut s, raw, RefreshMode::Full);
    assert_eq!(s.memory_series, vec![7]);
}

#[test]
fn log_buffer_is_bounded_after_any_refresh() {
    let mut content = String::new();
    for i in 0..800 {
        content.push_str(&format!("line{}\n", i));
    }
    let mut s = AppState::default();
    let mut raw = empty_raw();
    raw.log_files = vec![LogFile { modified: 1, content }];
    refresh(&mut s, raw, RefreshMode::Full);
    assert_eq!(s.logs.len(), 500);
    // the most recent 500 lines, file-internal order preserved
    assert_eq!(s.logs[0], "line300");
    assert_eq!(s.logs[499], "line799");
}

#[test]
fn refresh_replaces_agents_keyed_by_uuid() {
    let mut s = AppState::default();
    let mut raw = empty_raw();
    raw.agent_files = vec![
        "{\"uuid\":\"a\",\"name\":\"First\"}".to_string(),
        "{\"uuid\":\"b\",\"name\":\"Second\"}".to_string(),
        "not a card".to_string(),
        "{\"uuid\":\"a\",\"name\":\"Replaced\"}".to_string(),
    ];
    refresh(&mut s, raw, RefreshMode::Full);
    assert_eq!(s.agents.len(), 2);
    assert_eq!(s.agents[0].uuid, "a");
    assert_eq!(s.agents[0].name, "Replaced");
    assert_eq!(s.agents[1].uuid, "b");

    let rows = draw_agent_list(&s);
    assert_eq!(rows, vec!["> Replaced".to_string(), "  Second".to_string()]);
}

#[test]
fn selection_is_clamped_when_the_agent_set_shrinks() {
    let mut s = AppState::default();
    let mut raw = empty_raw();
    raw.agent_files = vec![
        "{\"uuid\":\"a\",\"name\":\"A\"}".to_string(),
        "{\"uuid\":\"b\",\"name\":\"B\"}".to_string(),
        "{\"uuid\":\"c\",\"name\":\"C\"}".to_string(),
    ];
    refresh(&mut s, raw, RefreshMode::Full);
    s.selected_index = 2;
    let mut raw = empty_raw();
    raw.agent_files = vec!["{\"uuid\":\"a\",\"name\":\"A\"}".to_string()];
    refresh(&mut s, raw, RefreshMode::Full);
    assert_eq!(s.selected_index, 0);
    refresh(&mut s, empty_raw(), RefreshMode::Full);
    assert_eq!(s.selected_index, 0);
}

#[test]
fn refresh_does_not_touch_panel_or_help() {
    let mut s = AppState::default();
    step(&mut s, Key::Char('m'));
    step(&mut s, Key::Char('?'));
    refresh(&mut s, empty_raw(), RefreshMode::Full);
    assert!(matches!(s.right_panel, RightPanel::Metrics));
    assert!(s.show_help);
}

#[test]
fn queue_refresh_keeps_newest_fifty() {
    let mut text = String::new();
    for i in 0..60 {
        text.push_str(&format!("c{}\n", i));
    }
    let mut s = AppState::default();
    let mut raw = empty_raw();
    raw.queue = Some(text);
    refresh(&mut s, raw, RefreshMode::Full);
    assert_eq!(s.commands.len(), 50);
    assert_eq!(s.commands[0], "c59");
    assert_eq!(s.commands[49], "c10");
}

#[test]
fn orchestrator_panel_truncates_to_the_available_rows() {
    let mut s = AppState::default();
    s.commands = vec!["a".into(), "b".into(), "c".into(), "d".into()];
    let rows = draw_orchestrator(&s, 5);
    assert_eq!(rows, vec!["a".to_string(), "b".to_string(), "c".to_string()]);
    let rows = draw_orchestrator(&s, 1);
    assert!(rows.is_empty());
}

#[test]
fn log_panel_scrolls_to_keep_recent_lines_visible() {
    let mut s = AppState::default();
    for i in 0..10 {
        s.logs.push(format!("l{}", i));
    }
    let (lines, scroll) = draw_logs(&s, 4);
    assert_eq!(lines.len(), 10);
    assert_eq!(scroll, 6);
    let (_, scroll) = draw_logs(&s, 30);
    assert_eq!(scroll, 0);
}

#[test]
fn metrics_panel_classifies_severities() {
    let mut s = AppState::default();
    s.memory_series = vec![1, 2, 3];
    s.semgrep_alerts = vec![
        SemgrepAlert { path: "a".into(), message: "m".into(), severity: "ERROR".into() },
        SemgrepAlert { path: "b".into(), message: "n".into(), severity: "WARNING".into() },
        SemgrepAlert { path: "c".into(), message: "o".into(), severity: "note".into() },
    ];
    let area = Rect { x: 30, y: 0, width: 70, height: 40 };
    let m = draw_metrics(&s, area);
    assert_eq!(m.band, Rect { x: 30, y: 0, width: 70, height: 5 });
    assert_eq!(m.list_area, Rect { x: 30, y: 5, width: 70, height: 35 });
    assert_eq!(m.spark, vec![1, 2, 3]);
    assert_eq!(m.alerts.len(), 3);
    assert_eq!(m.alerts[0].text, "a: m");
    assert_eq!(m.alerts[0].class, SeverityClass::Error);
    assert_eq!(m.alerts[1].class, SeverityClass::Warning);
    assert_eq!(m.alerts[2].class, SeverityClass::Info);
}

#[test]
fn help_overlay_lists_the_bindings() {
    let lines = draw_help();
    assert_eq!(lines.len(), 5);
    assert_eq!(lines[0], "r - refresh");
    assert_eq!(lines[4], "q - quit");
}

#[test]
fn centered_rect_is_centered_and_contained() {
    let r = centered_rect(60, 40, Rect { x: 0, y: 0, width: 100, height: 50 });
    assert_eq!(r, Rect { x: 20, y: 15, width: 60, height: 20 });
    let r = centered_rect(60, 40, Rect { x: 10, y: 5, width: 0, height: 0 });
    assert_eq!(r, Rect { x: 10, y: 5, width: 0, height: 0 });
}

#[test]
fn render_splits_the_viewport_and_follows_the_panel() {
    let mut s = AppState::default();
    let m = render(&s, 100, 40);
    assert_eq!(m.left, Rect { x: 0, y: 0, width: 30, height: 40 });
    assert_eq!(m.right, Rect { x: 30, y: 0, width: 70, height: 40 });
    assert!(matches!(m.panel, PanelContent::Orchestrator(_)));
    step(&mut s, Key::Tab);
    assert!(matches!(render(&s, 100, 40).panel, PanelContent::Logs(_, _)));
    step(&mut s, Key::Char('m'));
    assert!(matches!(render(&s, 100, 40).panel, PanelContent::Metrics(_)));
    step(&mut s, Key::Char('?'));
    let m = render(&s, 100, 40);
    let overlay = m.help.expect("overlay visible");
    assert_eq!(overlay.lines.len(), 5);
    assert_eq!(overlay.area, Rect { x: 20, y: 12, width: 60, height: 16 });
}

#[test]
fn redraw_without_state_change_is_identical() {
    let mut s = AppState::default();
    let mut raw = empty_raw();
    raw.agent_files = vec!["{\"uuid\":\"a\",\"name\":\"A\"}".to_string()];
    raw.queue = Some("one\ntwo\n".to_string());
    refresh(&mut s, raw, RefreshMode::Full);
    let a = render(&s, 80, 24);
    let b = render(&s, 80, 24);
    assert_eq!(a.agent_rows, b.agent_rows);
    match (a.panel, b.panel) {
        (PanelContent::Orchestrator(x), PanelContent::Orchestrator(y)) => assert_eq!(x, y),
        _ => panic!("panels diverged"),
    }
}
