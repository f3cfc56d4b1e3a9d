//! The panel state machine: keyboard inputs and the total, deterministic
//! transition function over the right-hand panel and the help overlay.
use vstd::prelude::*;
use crate::state::{AppState, RightPanel};

verus! {

/// One keyboard event, already decoded from the terminal backend.
#[derive(Debug, Clone, Copy, PartialEq, Eq, Structural)]
pub enum Key {
    Char(char),
    Tab,
    Other,
}

/// What a key means to the dashboard.
#[derive(Debug, Clone, Copy, PartialEq, Eq, Structural)]
pub enum AppInput {
    Quit,
    Refresh,
    TogglePanel,
    JumpMetrics,
    ToggleHelp,
    NoOp,
}

/// The keyboard surface: `q` quit, `r` refresh, `Tab`/`l` toggle the
/// Orchestrator/Logs pair, `m`/`M` jump to Metrics, `?` toggle help;
/// every other key is ignored.
pub open spec fn input_of_key(k: Key) -> AppInput {
    match k {
        Key::Char(c) => if c == 'q' {
            AppInput::Quit
        } else if c == 'r' {
            AppInput::Refresh
        } else if c == 'l' {
            AppInput::TogglePanel
        } else if c == 'm' || c == 'M' {
            AppInput::JumpMetrics
        } else if c == '?' {
            AppInput::ToggleHelp
        } else {
            AppInput::NoOp
        },
        Key::Tab => AppInput::TogglePanel,
        Key::Other => AppInput::NoOp,
    }
}

/// Decode a key into its meaning.
pub fn map_key(k: Key) -> (r: AppInput)
    ensures
        r == input_of_key(k),
{
    match k {
        Key::Char(c) => {
            if c == 'q' {
                AppInput::Quit
            } else if c == 'r' {
                AppInput::Refresh
            } else if c == 'l' {
                AppInput::TogglePanel
            } else if c == 'm' || c == 'M' {
                AppInput::JumpMetrics
            } else if c == '?' {
                AppInput::ToggleHelp
            } else {
                AppInput::NoOp
            }
        },
        Key::Tab => AppInput::TogglePanel,
        Key::Other => AppInput::NoOp,
    }
}

/// The toggle input cycles Orchestrator and Logs and never visits Metrics;
/// from Metrics it is a no-op, so that every unlisted (state, input) pair
/// leaves the state unchanged.
pub open spec fn toggled_panel(p: RightPanel) -> RightPanel {
    match p {
        RightPanel::Orchestrator => RightPanel::Logs,
        RightPanel::Logs => RightPanel::Orchestrator,
        RightPanel::Metrics => RightPanel::Metrics,
    }
}

/// Apply the toggle input to the active panel.
pub fn toggle_panel(p: RightPanel) -> (r: RightPanel)
    ensures
        r == toggled_panel(p),
{
    match p {
        RightPanel::Orchestrator => RightPanel::Logs,
        RightPanel::Logs => RightPanel::Orchestrator,
        RightPanel::Metrics => RightPanel::Metrics,
    }
}

/// The toggle is a total, deterministic transition: from Logs it always
/// yields Orchestrator, from Orchestrator always Logs, and from Metrics it
/// leaves the panel unchanged; applied twice it returns to where it started.
pub proof fn lemma_toggle_total(p: RightPanel)
    ensures
        toggled_panel(RightPanel::Logs) == RightPanel::Orchestrator,
        toggled_panel(RightPanel::Orchestrator) == RightPanel::Logs,
        toggled_panel(RightPanel::Metrics) == RightPanel::Metrics,
        toggled_panel(toggled_panel(p)) == p,
{
}

/// The panel after an input: the toggle cycles Orchestrator and Logs, the
/// metrics input jumps to Metrics from any state, and every other input
/// leaves the panel alone.
pub open spec fn panel_after(p: RightPanel, input: AppInput) -> RightPanel {
    match input {
        AppInput::TogglePanel => toggled_panel(p),
        AppInput::JumpMetrics => RightPanel::Metrics,
        _ => p,
    }
}

/// The help overlay after an input: only the help input flips it.
pub open spec fn help_after(h: bool, input: AppInput) -> bool {
    match input {
        AppInput::ToggleHelp => !h,
        _ => h,
    }
}

/// What the event loop must do after one input is applied.
#[derive(Debug, Clone, Copy, PartialEq, Eq, Structural)]
pub enum Action {
    /// Leave the event loop; the quit input is honored from every state.
    Exit,
    /// Run a full refresh against the artifacts, then redraw.
    DoRefresh,
    /// Redraw only.
    Redraw,
}

/// Apply one decoded key to the state: the panel and overlay move exactly as
/// `panel_after` and `help_after` say; everything else is untouched, and the
/// caller is told whether to quit, refresh or just redraw.
pub fn step(state: &mut AppState, key: Key) -> (action: Action)
    ensures
        final(state).right_panel == panel_after(old(state).right_panel, input_of_key(key)),
        final(state).show_help == help_after(old(state).show_help, input_of_key(key)),
        final(state).agents == old(state).agents,
        final(state).selected_index == old(state).selected_index,
        final(state).last_refresh == old(state).last_refresh,
        final(state).commands == old(state).commands,
        final(state).logs == old(state).logs,
        final(state).memory_series == old(state).memory_series,
        final(state).semgrep_alerts == old(state).semgrep_alerts,
        action == Action::Exit <==> input_of_key(key) == AppInput::Quit,
        action == Action::DoRefresh <==> input_of_key(key) == AppInput::Refresh,
        old(state).wf() ==> final(state).wf(),
{
    match map_key(key) {
        AppInput::Quit => Action::Exit,
        AppInput::Refresh => Action::DoRefresh,
        AppInput::TogglePanel => {
            state.right_panel = toggle_panel(state.right_panel);
            Action::Redraw
        },
        AppInput::JumpMetrics => {
            state.right_panel = RightPanel::Metrics;
            Action::Redraw
        },
        AppInput::ToggleHelp => {
            state.show_help = !state.show_help;
            Action::Redraw
        },
        AppInput::NoOp => Action::Redraw,
    }
}

/// The help overlay and the active panel are independent: toggling help
/// never moves the panel, and no panel input ever flips the overlay.
pub proof fn lemma_help_panel_independent(p: RightPanel, h: bool, input: AppInput)
    ensures
        panel_after(p, AppInput::ToggleHelp) == p,
        input != AppInput::ToggleHelp ==> help_after(h, input) == h,
        help_after(h, AppInput::TogglePanel) == h,
        help_after(h, AppInput::JumpMetrics) == h,
{
}

} // verus!
