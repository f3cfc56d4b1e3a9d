//! The data model: agent records, alerts, memory samples, and the root
//! application state aggregate with its bounded-buffer invariants.
use vstd::prelude::*;
use crate::time::now_millis;

verus! {

/// Capacity of the log-line buffer, across all log files combined.
pub const MAX_LOG_LINES: usize = 500;

/// Capacity of the memory-sample sliding window.
pub const MAX_MEMORY_SAMPLES: usize = 100;

/// Capacity of the command-queue list (most recent first).
pub const MAX_QUEUE_COMMANDS: usize = 50;

/// The right-hand panel that is currently visible.
#[derive(Debug, Clone, Copy, PartialEq, Eq, Structural)]
pub enum RightPanel {
    Orchestrator,
    Logs,
    Metrics,
}

/// One agent discovered from a discovery file.
#[derive(Debug, Clone)]
pub struct AgentCard {
    pub uuid: String,
    pub name: String,
    pub description: Option<String>,
    pub capabilities: Option<Vec<String>>,
}

/// The mathematical value of an agent record: its fields as sequences.
pub struct AgentCardView {
    pub uuid: Seq<char>,
    pub name: Seq<char>,
    pub description: Option<Seq<char>>,
    pub capabilities: Option<Seq<Seq<char>>>,
}

impl View for AgentCard {
    type V = AgentCardView;

    open spec fn view(&self) -> AgentCardView {
        AgentCardView {
            uuid: self.uuid@,
            name: self.name@,
            description: match self.description {
                Some(d) => Some(d@),
                None => None,
            },
            capabilities: match self.capabilities {
                Some(c) => Some(c.deep_view()),
                None => None,
            },
        }
    }
}

impl DeepView for AgentCard {
    type V = AgentCardView;

    open spec fn deep_view(&self) -> AgentCardView {
        self@
    }
}

/// The latest memory-metrics snapshot: used memory in the reader's unit.
#[derive(Debug, Clone)]
pub struct MemoryMetrics {
    pub used: u64,
}

/// One static-analysis finding.
#[derive(Debug, Clone)]
pub struct SemgrepAlert {
    pub path: String,
    pub message: String,
    pub severity: String,
}

/// The mathematical value of an alert record.
pub struct AlertView {
    pub path: Seq<char>,
    pub message: Seq<char>,
    pub severity: Seq<char>,
}

impl View for SemgrepAlert {
    type V = AlertView;

    open spec fn view(&self) -> AlertView {
        AlertView { path: self.path@, message: self.message@, severity: self.severity@ }
    }
}

impl DeepView for SemgrepAlert {
    type V = AlertView;

    open spec fn deep_view(&self) -> AlertView {
        self@
    }
}

/// No two records share an identifier: the agent list is a mapping keyed by
/// `uuid`.
pub open spec fn uuids_unique(agents: Seq<AgentCardView>) -> bool {
    forall|i: int, j: int| 0 <= i < j < agents.len() ==> agents[i].uuid != agents[j].uuid
}

/// The root aggregate: the latest snapshot from every reader plus the
/// UI-only fields (selection, active panel, help overlay).
#[derive(Debug)]
pub struct AppState {
    /// Mapping from agent identifier to record, kept as a list with unique
    /// `uuid` keys; the list order is the iteration order used by rendering.
    pub agents: Vec<AgentCard>,
    pub selected_index: usize,
    /// Milliseconds since the epoch at the last refresh.
    pub last_refresh: i64,
    /// Queue commands, most recent first, at most `MAX_QUEUE_COMMANDS`.
    pub commands: Vec<String>,
    pub right_panel: RightPanel,
    /// Log lines, oldest first, at most `MAX_LOG_LINES`.
    pub logs: Vec<String>,
    /// Memory samples, oldest first, at most `MAX_MEMORY_SAMPLES`.
    pub memory_series: Vec<u64>,
    pub semgrep_alerts: Vec<SemgrepAlert>,
    pub show_help: bool,
}

impl AppState {
    /// The invariants every component preserves: unique agent keys, bounded
    /// buffers, and a selection index within the agent list when it is
    /// nonempty (and pinned to zero when it is empty).
    pub open spec fn wf(&self) -> bool {
        &&& uuids_unique(self.agents.deep_view())
        &&& self.logs@.len() <= MAX_LOG_LINES
        &&& self.memory_series@.len() <= MAX_MEMORY_SAMPLES
        &&& (self.agents@.len() > 0 ==> self.selected_index < self.agents@.len())
        &&& (self.agents@.len() == 0 ==> self.selected_index == 0)
    }
}

impl Default for AppState {
    /// Construction with defaults: empty containers, the Orchestrator panel
    /// active, help hidden, and the current time as the last refresh.
    fn default() -> (s: Self)
        ensures
            s.wf(),
            s.agents@.len() == 0,
            s.selected_index == 0,
            s.commands@.len() == 0,
            s.right_panel == RightPanel::Orchestrator,
            s.logs@.len() == 0,
            s.memory_series@.len() == 0,
            s.semgrep_alerts@.len() == 0,
            !s.show_help,
    {
        AppState {
            agents: Vec::new(),
            selected_index: 0,
            last_refresh: now_millis(),
            commands: Vec::new(),
            right_panel: RightPanel::Orchestrator,
            logs: Vec::new(),
            memory_series: Vec::new(),
            semgrep_alerts: Vec::new(),
            show_help: false,
        }
    }
}

} // verus!
