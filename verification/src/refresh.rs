//! The refresh controller: a synchronous, full reconciliation of the
//! application state against the current artifact texts. Every sub-step
//! degrades to an empty or unchanged result on failure; the controller as a
//! whole never fails.
use vstd::prelude::*;
use crate::logs::{read_latest_logs, sort_desc, tail_rec, LogFile};
use crate::readers::{alerts_spec, cards_of, memory_spec, queue_spec, read_memory, read_queue,
    read_semgrep, scan_agents};
use crate::state::{
    uuids_unique, AgentCard, AgentCardView, AppState, MAX_LOG_LINES, MAX_MEMORY_SAMPLES,
};
use crate::time::now_millis;

verus! {

/// The raw text of every artifact class, read at the program's edge.
#[derive(Debug)]
pub struct RawArtifacts {
    /// The text of each file in the discovery directory.
    pub agent_files: Vec<String>,
    /// The text of the queue file, if it exists.
    pub queue: Option<String>,
    /// Every file in the log directory, with its modification time.
    pub log_files: Vec<LogFile>,
    /// The text of the memory-metrics snapshot, if it exists.
    pub memory: Option<String>,
    /// The text of the static-analysis report, if it exists.
    pub alerts: Option<String>,
}

/// How much of the state a refresh re-derives. Only a full reconciliation
/// exists today; the enum leaves room for partial refreshes.
#[derive(Debug, Clone, Copy, PartialEq, Eq, Structural)]
pub enum RefreshMode {
    Full,
}

/// Index of the first record with this `uuid`, or -1 if there is none.
pub open spec fn find_uuid(agents: Seq<AgentCardView>, uuid: Seq<char>) -> int
    decreases agents.len(),
{
    if agents.len() == 0 {
        -1
    } else if agents[0].uuid == uuid {
        0
    } else {
        let r = find_uuid(agents.drop_first(), uuid);
        if r == -1 {
            -1
        } else {
            r + 1
        }
    }
}

pub proof fn lemma_find_uuid(agents: Seq<AgentCardView>, uuid: Seq<char>)
    ensures
        find_uuid(agents, uuid) == -1 ==> forall|i: int|
            0 <= i < agents.len() ==> agents[i].uuid != uuid,
        find_uuid(agents, uuid) != -1 ==> 0 <= find_uuid(agents, uuid) < agents.len()
            && agents[find_uuid(agents, uuid)].uuid == uuid,
    decreases agents.len(),
{
    if agents.len() > 0 && agents[0].uuid != uuid {
        lemma_find_uuid(agents.drop_first(), uuid);
        if find_uuid(agents, uuid) == -1 {
            assert forall|i: int| 0 <= i < agents.len() implies agents[i].uuid != uuid by {
                if i > 0 {
                    assert(agents.drop_first()[i - 1] == agents[i]);
                }
            }
        } else {
            assert(agents.drop_first()[find_uuid(agents.drop_first(), uuid)] == agents[find_uuid(
                agents,
                uuid,
            )]);
        }
    }
}

/// `find_uuid` is pinned by a prefix without the key and, if the key occurs,
/// its first position.
pub proof fn lemma_find_uuid_pin(agents: Seq<AgentCardView>, uuid: Seq<char>, k: nat)
    requires
        k <= agents.len(),
        forall|i: int| 0 <= i < k ==> agents[i].uuid != uuid,
        k < agents.len() ==> agents[k as int].uuid == uuid,
    ensures
        k < agents.len() ==> find_uuid(agents, uuid) == k,
        k == agents.len() ==> find_uuid(agents, uuid) == -1,
    decreases agents.len(),
{
    if agents.len() == 0 {
    } else if agents[0].uuid == uuid {
    } else {
        let t = agents.drop_first();
        assert forall|i: int| 0 <= i < k - 1 implies t[i].uuid != uuid by {
            assert(t[i] == agents[i + 1]);
        }
        if k < agents.len() {
            assert(t[k - 1] == agents[k as int]);
        }
        lemma_find_uuid_pin(t, uuid, (k - 1) as nat);
    }
}

/// Insert a record into the mapping: a record with the same `uuid` is
/// overwritten in place, a new key is appended.
pub open spec fn upsert(agents: Seq<AgentCardView>, c: AgentCardView) -> Seq<AgentCardView> {
    let i = find_uuid(agents, c.uuid);
    if i == -1 {
        agents.push(c)
    } else {
        agents.update(i, c)
    }
}

/// The mapping obtained from a list of records keyed by `uuid`: duplicate
/// identifiers silently overwrite, first occurrence keeps its place.
pub open spec fn dedup_by_uuid(cards: Seq<AgentCardView>) -> Seq<AgentCardView>
    decreases cards.len(),
{
    if cards.len() == 0 {
        Seq::empty()
    } else {
        upsert(dedup_by_uuid(cards.drop_last()), cards.last())
    }
}

/// Upserting keeps the keys unique.
pub proof fn lemma_upsert_unique(agents: Seq<AgentCardView>, c: AgentCardView)
    requires
        uuids_unique(agents),
    ensures
        uuids_unique(upsert(agents, c)),
{
    lemma_find_uuid(agents, c.uuid);
    let i = find_uuid(agents, c.uuid);
    if i == -1 {
        let r = agents.push(c);
        assert forall|a: int, b: int| 0 <= a < b < r.len() implies r[a].uuid != r[b].uuid by {
            if b == agents.len() {
                assert(r[a] == agents[a]);
            }
        }
    } else {
        let r = agents.update(i, c);
        assert forall|a: int, b: int| 0 <= a < b < r.len() implies r[a].uuid != r[b].uuid by {
            if a != i && b != i {
                assert(r[a] == agents[a] && r[b] == agents[b]);
            } else if a == i {
                assert(r[b] == agents[b] && agents[i].uuid == c.uuid);
            } else {
                assert(r[a] == agents[a] && agents[i].uuid == c.uuid);
            }
        }
    }
}

/// The mapping a refresh derives always has unique keys, and it has a key
/// exactly for the identifiers among the scanned records.
pub proof fn lemma_dedup_by_uuid(cards: Seq<AgentCardView>)
    ensures
        uuids_unique(dedup_by_uuid(cards)),
        dedup_by_uuid(cards).len() <= cards.len(),
        forall|i: int| 0 <= i < cards.len() ==> find_uuid(
            dedup_by_uuid(cards),
            cards[i].uuid,
        ) != -1,
        forall|j: int| 0 <= j < dedup_by_uuid(cards).len() ==> exists|i: int|
            0 <= i < cards.len() && cards[i].uuid == #[trigger] dedup_by_uuid(cards)[j].uuid,
    decreases cards.len(),
{
    if cards.len() == 0 {
    } else {
        let prefix = cards.drop_last();
        let prev = dedup_by_uuid(prefix);
        let c = cards.last();
        lemma_dedup_by_uuid(prefix);
        lemma_upsert_unique(prev, c);
        lemma_find_uuid(prev, c.uuid);
        let d = dedup_by_uuid(cards);
        let fi = find_uuid(prev, c.uuid);
        // every scanned identifier still has a key
        assert forall|i: int| 0 <= i < cards.len() implies find_uuid(d, cards[i].uuid) != -1 by {
            lemma_find_uuid(d, cards[i].uuid);
            if i == cards.len() - 1 {
                if fi == -1 {
                    lemma_find_uuid_pin_exists(d, c.uuid, prev.len() as int);
                } else {
                    lemma_find_uuid_pin_exists(d, c.uuid, fi);
                }
            } else {
                assert(prefix[i] == cards[i]);
                assert(find_uuid(prev, prefix[i].uuid) != -1);
                lemma_find_uuid(prev, cards[i].uuid);
                let pi = find_uuid(prev, cards[i].uuid);
                assert(0 <= pi < prev.len() && prev[pi].uuid == cards[i].uuid);
                if fi == pi {
                    // that key was overwritten in place by the last record
                    assert(prev[fi].uuid == c.uuid);
                    assert(d[pi] == c);
                    assert(d[pi].uuid == cards[i].uuid);
                } else {
                    assert(d[pi] == prev[pi]);
                }
                lemma_find_uuid_pin_exists(d, cards[i].uuid, pi);
            }
        }
        // every key comes from some scanned record
        assert forall|j: int| 0 <= j < d.len() implies exists|i: int|
            0 <= i < cards.len() && cards[i].uuid == #[trigger] d[j].uuid by {
            if fi == -1 && j == d.len() - 1 {
                assert(d[j] == c);
                assert(cards[cards.len() - 1].uuid == d[j].uuid);
            } else if fi != -1 && j == fi {
                assert(d[j] == c);
                assert(cards[cards.len() - 1].uuid == d[j].uuid);
            } else {
                assert(d[j] == prev[j]);
                let i = choose|i: int| 0 <= i < prefix.len() && prefix[i].uuid == prev[j].uuid;
                assert(cards[i] == prefix[i]);
            }
        }
    }
}

/// If some index holds the key, `find_uuid` does not return -1.
proof fn lemma_find_uuid_pin_exists(agents: Seq<AgentCardView>, uuid: Seq<char>, k: int)
    requires
        0 <= k < agents.len(),
        agents[k].uuid == uuid,
    ensures
        find_uuid(agents, uuid) != -1,
{
    lemma_find_uuid(agents, uuid);
    if find_uuid(agents, uuid) == -1 {
        assert(agents[k].uuid != uuid);
    }
}

/// Insert one scanned record into the state's mapping.
fn upsert_card(agents: &mut Vec<AgentCard>, c: AgentCard)
    ensures
        final(agents).deep_view() == upsert(old(agents).deep_view(), c@),
{
    let ghost av = agents.deep_view();
    let mut i: usize = 0;
    while i < agents.len()
        invariant
            i <= agents@.len(),
            av == agents.deep_view(),
            agents == old(agents),
            forall|k: int| 0 <= k < i ==> av[k].uuid != c@.uuid,
        decreases agents@.len() - i,
    {
        if agents[i].uuid == c.uuid {
            proof {
                lemma_find_uuid_pin(av, c@.uuid, i as nat);
            }
            let ghost prev = agents.deep_view();
            agents.set(i, c);
            proof {
                assert(agents.deep_view() =~= prev.update(i as int, c@));
            }
            return ;
        }
        i += 1;
    }
    proof {
        lemma_find_uuid_pin(av, c@.uuid, agents@.len() as nat);
    }
    let ghost prev = agents.deep_view();
    agents.push(c);
    proof {
        assert(agents.deep_view() =~= prev.push(c@));
    }
}

/// Replace the agent mapping with the scanned records, keyed by identifier.
fn rebuild_agents(agents: &mut Vec<AgentCard>, cards: Vec<AgentCard>)
    ensures
        final(agents).deep_view() == dedup_by_uuid(cards.deep_view()),
{
    let ghost cv = cards.deep_view();
    agents.clear();
    let mut rest = cards;
    let ghost mut processed: Seq<AgentCardView> = Seq::empty();
    proof {
        assert(processed + rest.deep_view() =~= cv);
        assert(agents.deep_view() =~= dedup_by_uuid(processed));
    }
    while rest.len() > 0
        invariant
            processed + rest.deep_view() =~= cv,
            agents.deep_view() == dedup_by_uuid(processed),
        decreases rest@.len(),
    {
        let c = rest.remove(0);
        proof {
            let old_processed = processed;
            processed = processed.push(c@);
            assert(processed.drop_last() =~= old_processed);
            assert(dedup_by_uuid(processed) == upsert(dedup_by_uuid(old_processed), c@));
        }
        upsert_card(agents, c);
        proof {
            assert(processed + rest.deep_view() =~= cv);
        }
    }
    proof {
        assert(processed =~= cv);
    }
}

/// A sample appended to the sliding window: when the window is full, the
/// oldest sample (and exactly that one) is evicted.
pub open spec fn push_window(series: Seq<u64>, sample: u64, cap: nat) -> Seq<u64> {
    if series.len() + 1 > cap {
        series.push(sample).drop_first()
    } else {
        series.push(sample)
    }
}

/// The window never grows past its capacity, a full window evicts exactly
/// the oldest sample, and the samples kept stay in order.
pub proof fn lemma_push_window(series: Seq<u64>, sample: u64, cap: nat)
    requires
        series.len() <= cap,
        cap > 0,
    ensures
        push_window(series, sample, cap).len() <= cap,
        push_window(series, sample, cap).last() == sample,
        series.len() < cap ==> push_window(series, sample, cap) == series.push(sample),
        series.len() == cap ==> push_window(series, sample, cap) =~= series.drop_first().push(
            sample,
        ),
{
    if series.len() == cap {
        assert(push_window(series, sample, cap) =~= series.drop_first().push(sample));
    }
}

/// Append one memory sample, evicting the oldest when the window is full.
fn push_memory_sample(series: &mut Vec<u64>, sample: u64)
    requires
        old(series)@.len() <= MAX_MEMORY_SAMPLES,
    ensures
        final(series)@ == push_window(old(series)@, sample, MAX_MEMORY_SAMPLES as nat),
        final(series)@.len() <= MAX_MEMORY_SAMPLES,
{
    let ghost prev = series@;
    series.push(sample);
    if series.len() > MAX_MEMORY_SAMPLES {
        series.remove(0);
        proof {
            assert(series@ =~= prev.push(sample).drop_first());
        }
    }
    proof {
        lemma_push_window(prev, sample, MAX_MEMORY_SAMPLES as nat);
    }
}

/// The selection policy after the agent set changes: clamp to the last valid
/// index, and to zero when the list is empty.
pub open spec fn clamped_selection(sel: int, agent_count: int) -> int {
    if agent_count == 0 {
        0
    } else if sel < agent_count {
        sel
    } else {
        agent_count - 1
    }
}

/// Everything a full refresh writes into the state, as already-decoded data.
pub struct RefreshData {
    pub agents: Vec<AgentCard>,
    pub commands: Vec<String>,
    pub logs: Vec<String>,
    pub memory: Option<crate::state::MemoryMetrics>,
    pub alerts: Vec<crate::state::SemgrepAlert>,
}

/// Write decoded refresh data into the state: the agent mapping, command
/// list, log buffer and alert list are replaced wholesale; the memory sample,
/// when present, slides into the bounded window; the selection is re-clamped;
/// the panel and help overlay are untouched.
pub fn apply_refresh(state: &mut AppState, data: RefreshData, now: i64)
    requires
        old(state).wf(),
        data.logs@.len() <= MAX_LOG_LINES,
    ensures
        final(state).wf(),
        final(state).agents.deep_view() == dedup_by_uuid(data.agents.deep_view()),
        final(state).commands.deep_view() == data.commands.deep_view(),
        final(state).logs.deep_view() == data.logs.deep_view(),
        final(state).memory_series@ == (match data.memory {
            Some(m) => push_window(old(state).memory_series@, m.used, MAX_MEMORY_SAMPLES as nat),
            None => old(state).memory_series@,
        }),
        final(state).semgrep_alerts.deep_view() == data.alerts.deep_view(),
        final(state).last_refresh == now,
        final(state).right_panel == old(state).right_panel,
        final(state).show_help == old(state).show_help,
        final(state).selected_index as int == clamped_selection(
            old(state).selected_index as int,
            final(state).agents@.len() as int,
        ),
{
    let RefreshData { agents, commands, logs, memory, alerts } = data;
    proof {
        lemma_dedup_by_uuid(agents.deep_view());
    }
    rebuild_agents(&mut state.agents, agents);
    state.commands = commands;
    state.logs = logs;
    match memory {
        Some(m) => push_memory_sample(&mut state.memory_series, m.used),
        None => {},
    }
    state.semgrep_alerts = alerts;
    state.last_refresh = now;
    if state.agents.len() == 0 {
        state.selected_index = 0;
    } else if state.selected_index >= state.agents.len() {
        state.selected_index = state.agents.len() - 1;
    }
}

/// A full refresh: decode every artifact, then reconcile the state. No step
/// fails; a missing or malformed artifact degrades to an empty or unchanged
/// field, and the refresh stamp is updated unconditionally.
pub fn refresh(state: &mut AppState, raw: RawArtifacts, mode: RefreshMode)
    requires
        old(state).wf(),
    ensures
        final(state).wf(),
        final(state).agents.deep_view() == dedup_by_uuid(cards_of(raw.agent_files.deep_view())),
        final(state).agents@.len() <= raw.agent_files@.len(),
        uuids_unique(final(state).agents.deep_view()),
        final(state).commands.deep_view() == queue_spec(raw.queue.deep_view()),
        final(state).logs.deep_view() == tail_rec(
            sort_desc(raw.log_files.deep_view()),
            MAX_LOG_LINES as nat,
        ),
        final(state).logs@.len() <= MAX_LOG_LINES,
        final(state).memory_series@ == (match memory_spec(raw.memory.deep_view()) {
            Some(u) => push_window(old(state).memory_series@, u, MAX_MEMORY_SAMPLES as nat),
            None => old(state).memory_series@,
        }),
        final(state).memory_series@.len() <= MAX_MEMORY_SAMPLES,
        final(state).semgrep_alerts.deep_view() == alerts_spec(raw.alerts.deep_view()),
        final(state).selected_index as int == clamped_selection(
            old(state).selected_index as int,
            final(state).agents@.len() as int,
        ),
        final(state).right_panel == old(state).right_panel,
        final(state).show_help == old(state).show_help,
{
    match mode {
        RefreshMode::Full => {},
    }
    let RawArtifacts { agent_files, queue, log_files, memory, alerts } = raw;
    let cards = scan_agents(&agent_files);
    let data = RefreshData {
        agents: cards,
        commands: read_queue(&queue),
        logs: read_latest_logs(log_files, MAX_LOG_LINES),
        memory: read_memory(&memory),
        alerts: read_semgrep(&alerts),
    };
    let ghost mem = data.memory;
    let ghost alerts_dv = data.alerts.deep_view();
    let now = now_millis();
    proof {
        lemma_dedup_by_uuid(data.agents.deep_view());
    }
    apply_refresh(state, data, now);
    proof {
        match mem {
            Some(m) => {
                assert(memory_spec(raw.memory.deep_view()) == Some(m.used));
                assert(state.memory_series@ == push_window(
                    old(state).memory_series@,
                    m.used,
                    MAX_MEMORY_SAMPLES as nat,
                ));
            },
            None => {
                assert(memory_spec(raw.memory.deep_view()) is None);
            },
        }
        assert(state.semgrep_alerts.deep_view() == alerts_dv);
    }
}

} // verus!
