use agent_dashboard::input::{map_key, step, Action, AppInput, Key};
use agent_dashboard::state::{AppState, RightPanel};

fn fresh_state() -> AppState {
    AppState::default()
}

#[test]
fn key_surface_decodes_as_documented() {
    assert_eq!(map_key(Key::Char('q')), AppInput::Quit);
    assert_eq!(map_key(Key::Char('r')), AppInput::Refresh);
    assert_eq!(map_key(Key::Char('l')), AppInput::TogglePanel);
    assert_eq!(map_key(Key::Tab), AppInput::TogglePanel);
    assert_eq!(map_key(Key::Char('m')), AppInput::JumpMetrics);
    assert_eq!(map_key(Key::Char('M')), AppInput::JumpMetrics);
    assert_eq!(map_key(Key::Char('?')), AppInput::ToggleHelp);
    assert_eq!(map_key(Key::Char('x')), AppInput::NoOp);
    assert_eq!(map_key(Key::Other), AppInput::NoOp);
}

#[test]
fn toggle_cycles_orchestrator_and_logs() {
    let mut s = fresh_state();
    assert!(matches!(s.right_panel, RightPanel::Orchestrator));
    let a = step(&mut s, Key::Tab);
    assert_eq!(a, Action::Redraw);
    assert!(matches!(s.right_panel, RightPanel::Logs));
    let a = step(&mut s, Key::Tab);
    assert_eq!(a, Action::Redraw);
    assert!(matches!(s.right_panel, RightPanel::Orchestrator));
}

#[test]
fn toggle_from_logs_always_yields_orchestrator() {
    let mut s = fresh_state();
    step(&mut s, Key::Char('l'));
    assert!(matches!(s.right_panel, RightPanel::Logs));
    step(&mut s, Key::Char('l'));
    assert!(matches!(s.right_panel, RightPanel::Orchestrator));
}

#[test]
fn toggle_from_metrics_is_a_no_op() {
    let mut s = fresh_state();
    step(&mut s, Key::Char('m'));
    assert!(matches!(s.right_panel, RightPanel::Metrics));
    let a = step(&mut s, Key::Tab);
    assert_eq!(a, Action::Redraw);
    assert!(matches!(s.right_panel, RightPanel::Metrics));
}

#[test]
fn metrics_input_jumps_from_any_state() {
    let mut s = fresh_state();
    step(&mut s, Key::Char('m'));
    assert!(matches!(s.right_panel, RightPanel::Metrics));
    let mut s = fresh_state();
    step(&mut s, Key::Tab);
    step(&mut s, Key::Char('M'));
    assert!(matches!(s.right_panel, RightPanel::Metrics));
}

#[test]
fn help_toggle_never_changes_the_panel() {
    let mut s = fresh_state();
    step(&mut s, Key::Char('m'));
    assert!(!s.show_help);
    step(&mut s, Key::Char('?'));
    assert!(s.show_help);
    assert!(matches!(s.right_panel, RightPanel::Metrics));
    step(&mut s, Key::Char('?'));
    assert!(!s.show_help);
    assert!(matches!(s.right_panel, RightPanel::Metrics));
}

#[test]
fn panel_inputs_never_change_the_help_flag() {
    let mut s = fresh_state();
    step(&mut s, Key::Char('?'));
    assert!(s.show_help);
    step(&mut s, Key::Tab);
    assert!(s.show_help);
    step(&mut s, Key::Char('m'));
    assert!(s.show_help);
    step(&mut s, Key::Char('l'));
    assert!(s.show_help);
}

#[test]
fn quit_is_honored_from_every_state() {
    let mut s = fresh_state();
    assert_eq!(step(&mut s, Key::Char('q')), Action::Exit);
    step(&mut s, Key::Char('m'));
    step(&mut s, Key::Char('?'));
    assert_eq!(step(&mut s, Key::Char('q')), Action::Exit);
}

#[test]
fn refresh_key_requests_a_refresh_without_touching_state() {
    let mut s = fresh_state();
    step(&mut s, Key::Char('m'));
    let a = step(&mut s, Key::Char('r'));
    assert_eq!(a, Action::DoRefresh);
    assert!(matches!(s.right_panel, RightPanel::Metrics));
    assert!(!s.show_help);
}

#[test]
fn other_keys_are_no_ops() {
    let mut s = fresh_state();
    step(&mut s, Key::Char('z'));
    step(&mut s, Key::Other);
    assert!(matches!(s.right_panel, RightPanel::Orchestrator));
    assert!(!s.show_help);
    assert_eq!(s.selected_index, 0);
}
