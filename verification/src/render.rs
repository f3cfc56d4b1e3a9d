//! Render dispatch: a pure function from the application state to what each
//! panel must display. Nothing here mutates the state; the terminal backend
//! turns these values into cells at the program's edge.
use vstd::prelude::*;
use crate::state::{AgentCardView, AlertView, AppState, RightPanel, MAX_LOG_LINES};

verus! {

/// A rectangular region of the viewport, in cells.
#[derive(Debug, Clone, Copy, PartialEq, Eq, Structural)]
pub struct Rect {
    pub x: u16,
    pub y: u16,
    pub width: u16,
    pub height: u16,
}

/// A box of `percent_x` by `percent_y` percent of `r`, centered in `r`.
pub fn centered_rect(percent_x: u16, percent_y: u16, r: Rect) -> (res: Rect)
    requires
        percent_x <= 100,
        percent_y <= 100,
        r.x + r.width <= u16::MAX,
        r.y + r.height <= u16::MAX,
    ensures
        res.width as int == r.width as int * percent_x as int / 100,
        res.height as int == r.height as int * percent_y as int / 100,
        res.x as int == r.x as int + (r.width - res.width) as int / 2,
        res.y as int == r.y as int + (r.height - res.height) as int / 2,
        r.x <= res.x && res.x as int + res.width as int <= r.x as int + r.width as int,
        r.y <= res.y && res.y as int + res.height as int <= r.y as int + r.height as int,
{
    proof {
        assert(r.width as int * percent_x as int <= 65535 * 100) by (nonlinear_arith)
            requires
                r.width <= 65535,
                percent_x <= 100,
        ;
        assert(r.width as int * percent_x as int / 100 <= r.width as int) by (nonlinear_arith)
            requires
                percent_x <= 100,
                0 <= r.width,
        ;
        assert(r.height as int * percent_y as int <= 65535 * 100) by (nonlinear_arith)
            requires
                r.height <= 65535,
                percent_y <= 100,
        ;
        assert(r.height as int * percent_y as int / 100 <= r.height as int) by (nonlinear_arith)
            requires
                percent_y <= 100,
                0 <= r.height,
        ;
    }
    let w = ((r.width as u32) * (percent_x as u32) / 100) as u16;
    let h = ((r.height as u32) * (percent_y as u32) / 100) as u16;
    let x = r.x + (r.width - w) / 2;
    let y = r.y + (r.height - h) / 2;
    Rect { x, y, width: w, height: h }
}

/// The marker put before an agent's name: an indicator on the selected row,
/// blanks elsewhere.
pub open spec fn row_marker(selected: bool) -> Seq<char> {
    if selected {
        seq!['>', ' ']
    } else {
        seq![' ', ' ']
    }
}

/// The agent list: one row per agent in the mapping's order, the selected
/// row marked.
pub open spec fn agent_rows(agents: Seq<AgentCardView>, selected: int) -> Seq<Seq<char>> {
    Seq::new(agents.len(), |i: int| row_marker(i == selected) + agents[i].name)
}

/// Render the agent list rows from the state.
pub fn draw_agent_list(state: &AppState) -> (r: Vec<String>)
    ensures
        r.deep_view() == agent_rows(state.agents.deep_view(), state.selected_index as int),
{
    let ghost av = state.agents.deep_view();
    let mut rows: Vec<String> = Vec::new();
    let mut i: usize = 0;
    proof {
        assert(rows.deep_view() =~= agent_rows(av, state.selected_index as int).take(0));
    }
    while i < state.agents.len()
        invariant
            i <= av.len(),
            av == state.agents.deep_view(),
            rows.deep_view() =~= agent_rows(av, state.selected_index as int).take(i as int),
        decreases av.len() - i,
    {
        let selected = i == state.selected_index;
        let mut row = String::from_str(if selected {
            "> "
        } else {
            "  "
        });
        row.append(state.agents[i].name.as_str());
        proof {
            reveal_strlit("> ");
            reveal_strlit("  ");
            assert(("> ")@ =~= seq!['>', ' ']);
            assert(("  ")@ =~= seq![' ', ' ']);
            assert(row@ == row_marker(selected) + av[i as int].name);
        }
        let ghost prev = rows.deep_view();
        rows.push(row);
        proof {
            assert(rows.deep_view() =~= prev.push(row_marker(selected) + av[i as int].name));
            assert(rows.deep_view() =~= agent_rows(av, state.selected_index as int).take(
                i + 1,
            ));
        }
        i += 1;
    }
    proof {
        let full = agent_rows(av, state.selected_index as int);
        assert(full.take(av.len() as int) =~= full);
    }
    rows
}

/// A refresh followed by rendering the agent list yields exactly one row per
/// record of the mapping the refresh derives from the scanned cards — one
/// per distinct identifier, however many files were skipped as malformed —
/// in the mapping's iteration order, each row carrying the record's name and
/// the selected row's marker.
pub proof fn lemma_refresh_agent_rows(cards: Seq<AgentCardView>, selected: int)
    ensures
        agent_rows(crate::refresh::dedup_by_uuid(cards), selected).len()
            == crate::refresh::dedup_by_uuid(cards).len(),
        crate::state::uuids_unique(crate::refresh::dedup_by_uuid(cards)),
        forall|i: int| 0 <= i < crate::refresh::dedup_by_uuid(cards).len()
            ==> #[trigger] agent_rows(crate::refresh::dedup_by_uuid(cards), selected)[i]
            == row_marker(i == selected) + crate::refresh::dedup_by_uuid(cards)[i].name,
{
    crate::refresh::lemma_dedup_by_uuid(cards);
}

/// The queue rows that fit the panel: the list is truncated to the panel
/// height minus its two border rows.
pub open spec fn visible_commands(commands: Seq<Seq<char>>, height: int) -> Seq<Seq<char>> {
    let avail = if height >= 2 {
        height - 2
    } else {
        0
    };
    if commands.len() <= avail {
        commands
    } else {
        commands.take(avail)
    }
}

/// Render the Orchestrator panel: the visible prefix of the command list.
pub fn draw_orchestrator(state: &AppState, height: u16) -> (r: Vec<String>)
    ensures
        r.deep_view() == visible_commands(state.commands.deep_view(), height as int),
{
    let avail: usize = if height >= 2 {
        (height - 2) as usize
    } else {
        0
    };
    let ghost cv = state.commands.deep_view();
    let mut rows: Vec<String> = Vec::new();
    let mut i: usize = 0;
    while i < state.commands.len() && i < avail
        invariant
            i <= cv.len(),
            i <= avail,
            avail as int == (if height >= 2 {
                height - 2
            } else {
                0
            }),
            cv == state.commands.deep_view(),
            rows.deep_view() =~= cv.take(i as int),
        decreases cv.len() - i,
    {
        let ghost prev = rows.deep_view();
        rows.push(state.commands[i].clone());
        proof {
            assert(rows.deep_view() =~= prev.push(cv[i as int]));
            assert(rows.deep_view() =~= cv.take(i + 1));
        }
        i += 1;
    }
    proof {
        if cv.len() <= avail {
            assert(cv.take(cv.len() as int) =~= cv);
        }
        assert(rows.deep_view() =~= visible_commands(cv, height as int));
    }
    rows
}

/// How far the log panel is scrolled: the most recent lines stay visible at
/// the bottom once the buffer exceeds the panel height.
pub open spec fn log_scroll(len: int, height: int) -> int {
    if len > height {
        len - height
    } else {
        0
    }
}

/// Render the Logs panel: every buffered line plus the scroll offset.
pub fn draw_logs(state: &AppState, height: u16) -> (r: (Vec<String>, u16))
    requires
        state.wf(),
    ensures
        r.0.deep_view() == state.logs.deep_view(),
        r.1 as int == log_scroll(state.logs@.len() as int, height as int),
{
    let ghost lv = state.logs.deep_view();
    let mut rows: Vec<String> = Vec::new();
    let mut i: usize = 0;
    while i < state.logs.len()
        invariant
            i <= lv.len(),
            lv == state.logs.deep_view(),
            rows.deep_view() =~= lv.take(i as int),
        decreases lv.len() - i,
    {
        let ghost prev = rows.deep_view();
        rows.push(state.logs[i].clone());
        proof {
            assert(rows.deep_view() =~= prev.push(lv[i as int]));
            assert(rows.deep_view() =~= lv.take(i + 1));
        }
        i += 1;
    }
    proof {
        assert(rows.deep_view() =~= lv);
        assert(state.logs@.len() <= MAX_LOG_LINES);
    }
    let len = state.logs.len();
    let hh = height as usize;
    let scroll: u16 = if len > hh {
        (len - hh) as u16
    } else {
        0
    };
    (rows, scroll)
}

/// The visual emphasis an alert gets, decided by its severity label.
#[derive(Debug, Clone, Copy, PartialEq, Eq, Structural)]
pub enum SeverityClass {
    Error,
    Warning,
    Info,
}

/// `ERROR` and `WARNING` get their own emphasis; any other label is
/// informational.
pub open spec fn class_of(severity: Seq<char>) -> SeverityClass {
    if severity == ("ERROR")@ {
        SeverityClass::Error
    } else if severity == ("WARNING")@ {
        SeverityClass::Warning
    } else {
        SeverityClass::Info
    }
}

/// Classify one severity label.
pub fn severity_class(severity: &String) -> (r: SeverityClass)
    ensures
        r == class_of(severity@),
{
    let err = String::from_str("ERROR");
    if *severity == err {
        return SeverityClass::Error;
    }
    let warn = String::from_str("WARNING");
    if *severity == warn {
        return SeverityClass::Warning;
    }
    SeverityClass::Info
}

/// The text shown for one alert.
pub open spec fn alert_text(a: AlertView) -> Seq<char> {
    a.path + seq![':', ' '] + a.message
}

/// One alert row: its text and its emphasis.
#[derive(Debug)]
pub struct AlertDisplay {
    pub text: String,
    pub class: SeverityClass,
}

/// The row shows the alert's text with the emphasis its severity calls for.
pub open spec fn alert_display_ok(d: AlertDisplay, a: AlertView) -> bool {
    d.text@ == alert_text(a) && d.class == class_of(a.severity)
}

/// What the Metrics panel shows: a fixed-height trend band over the memory
/// series, and below it the alert list in the remaining rows.
#[derive(Debug)]
pub struct MetricsContent {
    /// The trend band: the top of the area, at most `SPARK_ROWS` rows tall.
    pub band: Rect,
    /// The alert list's region: everything below the band.
    pub list_area: Rect,
    pub spark: Vec<u64>,
    pub alerts: Vec<AlertDisplay>,
}

/// Rows given to the memory trend band.
pub const SPARK_ROWS: u16 = 5;

/// Render the Metrics panel into `area`: the memory series as trend data in
/// a fixed-height band at the top, and one row per alert, with
/// severity-based emphasis, in the remainder.
pub fn draw_metrics(state: &AppState, area: Rect) -> (r: MetricsContent)
    requires
        area.y + area.height <= u16::MAX,
    ensures
        r.band == (Rect {
            x: area.x,
            y: area.y,
            width: area.width,
            height: if area.height < SPARK_ROWS {
                area.height
            } else {
                SPARK_ROWS
            },
        }),
        r.list_area == (Rect {
            x: area.x,
            y: (area.y + r.band.height) as u16,
            width: area.width,
            height: (area.height - r.band.height) as u16,
        }),
        r.spark@ == state.memory_series@,
        r.alerts@.len() == state.semgrep_alerts@.len(),
        forall|i: int| 0 <= i < r.alerts@.len() ==> alert_display_ok(
            #[trigger] r.alerts@[i],
            state.semgrep_alerts.deep_view()[i],
        ),
{
    let band_height = if area.height < SPARK_ROWS {
        area.height
    } else {
        SPARK_ROWS
    };
    let band = Rect { x: area.x, y: area.y, width: area.width, height: band_height };
    let list_area = Rect {
        x: area.x,
        y: area.y + band_height,
        width: area.width,
        height: area.height - band_height,
    };
    let mut spark: Vec<u64> = Vec::new();
    let mut i: usize = 0;
    while i < state.memory_series.len()
        invariant
            i <= state.memory_series@.len(),
            spark@ =~= state.memory_series@.take(i as int),
        decreases state.memory_series@.len() - i,
    {
        spark.push(state.memory_series[i]);
        i += 1;
    }
    proof {
        assert(spark@ =~= state.memory_series@);
    }
    let ghost av = state.semgrep_alerts.deep_view();
    let mut alerts: Vec<AlertDisplay> = Vec::new();
    let mut j: usize = 0;
    while j < state.semgrep_alerts.len()
        invariant
            j <= av.len(),
            av == state.semgrep_alerts.deep_view(),
            alerts@.len() == j,
            forall|k: int| 0 <= k < j ==> alert_display_ok(#[trigger] alerts@[k], av[k]),
        decreases av.len() - j,
    {
        let a = &state.semgrep_alerts[j];
        proof {
            assert(a@ == av[j as int]);
        }
        let mut text = a.path.clone();
        text.append(": ");
        text.append(a.message.as_str());
        proof {
            reveal_strlit(": ");
            assert((": ")@ =~= seq![':', ' ']);
            assert(text@ == alert_text(av[j as int]));
        }
        let class = severity_class(&a.severity);
        let ghost text_v = text@;
        let ghost prev_alerts = alerts@;
        alerts.push(AlertDisplay { text, class });
        proof {
            assert(alerts@.len() == j + 1);
            assert forall|k: int| 0 <= k < j + 1 implies alert_display_ok(
                #[trigger] alerts@[k],
                av[k],
            ) by {
                if k < j {
                    assert(alerts@[k] == prev_alerts[k]);
                    assert(alert_display_ok(prev_alerts[k], av[k]));
                } else {
                    assert(alerts@[k].text@ == text_v);
                    assert(alerts@[k].class == class);
                }
            }
        }
        j += 1;
    }
    MetricsContent { band, list_area, spark, alerts }
}

/// The help overlay's key-binding lines.
pub open spec fn help_lines() -> Seq<Seq<char>> {
    seq![
        ("r - refresh")@,
        ("Tab/l - toggle logs/orchestrator")@,
        ("m - metrics panel")@,
        ("? - toggle help")@,
        ("q - quit")@,
    ]
}

/// Render the help overlay's contents.
pub fn draw_help() -> (r: Vec<String>)
    ensures
        r.deep_view() == help_lines(),
{
    let mut rows: Vec<String> = Vec::new();
    rows.push(String::from_str("r - refresh"));
    rows.push(String::from_str("Tab/l - toggle logs/orchestrator"));
    rows.push(String::from_str("m - metrics panel"));
    rows.push(String::from_str("? - toggle help"));
    rows.push(String::from_str("q - quit"));
    proof {
        assert(rows.deep_view() =~= help_lines());
    }
    rows
}

/// The contents of the active right panel.
#[derive(Debug)]
pub enum PanelContent {
    Orchestrator(Vec<String>),
    Logs(Vec<String>, u16),
    Metrics(MetricsContent),
}

/// The help overlay: where it goes and what it lists. It fully obscures the
/// region it covers.
#[derive(Debug)]
pub struct HelpOverlay {
    pub area: Rect,
    pub lines: Vec<String>,
}

/// Everything one frame must draw.
#[derive(Debug)]
pub struct RenderModel {
    /// The fixed left region, always the agent list.
    pub left: Rect,
    /// The remaining right region, holding the active panel.
    pub right: Rect,
    pub agent_rows: Vec<String>,
    pub panel: PanelContent,
    pub help: Option<HelpOverlay>,
}

/// Decide one frame from the state alone: a fixed 30% left region with the
/// agent list, the active panel in the remaining 70%, and the centered help
/// overlay when the flag is set.
pub fn render(state: &AppState, width: u16, height: u16) -> (r: RenderModel)
    requires
        state.wf(),
    ensures
        r.left == (Rect { x: 0, y: 0, width: (width as int * 30 / 100) as u16, height }),
        r.right.x == r.left.width && r.right.y == 0 && r.right.height == height,
        r.right.width as int == width as int - r.left.width as int,
        r.agent_rows.deep_view() == agent_rows(
            state.agents.deep_view(),
            state.selected_index as int,
        ),
        r.panel is Orchestrator <==> state.right_panel == RightPanel::Orchestrator,
        r.panel is Logs <==> state.right_panel == RightPanel::Logs,
        r.panel is Metrics <==> state.right_panel == RightPanel::Metrics,
        r.panel matches PanelContent::Orchestrator(cmds) ==> cmds.deep_view()
            == visible_commands(state.commands.deep_view(), height as int),
        r.panel matches PanelContent::Logs(lines, scroll) ==> lines.deep_view()
            == state.logs.deep_view() && scroll as int == log_scroll(
            state.logs@.len() as int,
            height as int,
        ),
        r.panel matches PanelContent::Metrics(m) ==> m.spark@ == state.memory_series@
            && m.alerts@.len() == state.semgrep_alerts@.len() && m.band == (Rect {
            x: r.right.x,
            y: 0,
            width: r.right.width,
            height: if height < SPARK_ROWS {
                height
            } else {
                SPARK_ROWS
            },
        }) && m.list_area == (Rect {
            x: r.right.x,
            y: m.band.height,
            width: r.right.width,
            height: (height - m.band.height) as u16,
        }),
        r.help is Some <==> state.show_help,
        r.help matches Some(h) ==> h.lines.deep_view() == help_lines() && h.area.width as int
            == width as int * 60 / 100 && h.area.height as int == height as int * 40 / 100
            && h.area.x as int == (width as int - h.area.width as int) / 2 && h.area.y as int == (
        height as int - h.area.height as int) / 2,
{
    proof {
        assert(width as int * 30 <= 65535 * 30) by (nonlinear_arith)
            requires
                width <= 65535,
        ;
        assert(width as int * 30 / 100 <= width as int) by (nonlinear_arith)
            requires
                0 <= width,
        ;
    }
    let left_w = ((width as u32) * 30 / 100) as u16;
    let left = Rect { x: 0, y: 0, width: left_w, height };
    let right = Rect { x: left_w, y: 0, width: width - left_w, height };
    let agent_rows = draw_agent_list(state);
    let panel = match state.right_panel {
        RightPanel::Orchestrator => PanelContent::Orchestrator(draw_orchestrator(state, height)),
        RightPanel::Logs => {
            let (lines, scroll) = draw_logs(state, height);
            PanelContent::Logs(lines, scroll)
        },
        RightPanel::Metrics => PanelContent::Metrics(draw_metrics(state, right)),
    };
    let help = if state.show_help {
        let area = centered_rect(60, 40, Rect { x: 0, y: 0, width, height });
        Some(HelpOverlay { area, lines: draw_help() })
    } else {
        None
    };
    RenderModel { left, right, agent_rows, panel, help }
}

} // verus!
