//! The pure half of each data reader: given the text of an artifact (read
//! at the edge of the program), decode it into typed records. Every reader
//! degrades to an empty or absent result instead of failing, and each one's
//! contract says exactly what it decodes, over the named parse `json_of`.
use vstd::prelude::*;
use crate::json::{
    get_member, json_of, lemma_views_of_values_index, member_lookup, parse_json, views_of_values,
    JsonValue, JsonView,
};
use crate::lines::{spec_lines, split_lines};
use crate::state::{AgentCard, AgentCardView, AlertView, MemoryMetrics, SemgrepAlert,
    MAX_QUEUE_COMMANDS};

verus! {

/// The last `max` elements of `lines`, most recent first.
pub open spec fn last_rev(lines: Seq<Seq<char>>, max: nat) -> Seq<Seq<char>> {
    Seq::new(
        if lines.len() <= max {
            lines.len()
        } else {
            max
        },
        |i: int| lines[lines.len() - 1 - i],
    )
}

/// What the queue reader returns: the last `MAX_QUEUE_COMMANDS` lines of the
/// queue file, newest first; an absent file yields an empty list.
pub open spec fn queue_spec(content: Option<Seq<char>>) -> Seq<Seq<char>> {
    match content {
        None => Seq::empty(),
        Some(s) => last_rev(spec_lines(s), MAX_QUEUE_COMMANDS as nat),
    }
}

/// Read the recent orchestrator commands out of the queue file's text.
pub fn read_queue(content: &Option<String>) -> (r: Vec<String>)
    ensures
        r.deep_view() == queue_spec(content.deep_view()),
        r@.len() <= MAX_QUEUE_COMMANDS,
{
    match content {
        None => {
            let r: Vec<String> = Vec::new();
            proof {
                assert(r.deep_view() =~= queue_spec(content.deep_view()));
            }
            r
        },
        Some(s) => {
            let lines = split_lines(s.as_str());
            let ghost lv = lines.deep_view();
            let total = lines.len();
            let mut r: Vec<String> = Vec::new();
            let mut taken: usize = 0;
            proof {
                assert(r.deep_view() =~= Seq::new(taken as nat, |i: int| lv[total - 1 - i]));
            }
            while taken < MAX_QUEUE_COMMANDS && taken < total
                invariant
                    taken <= total,
                    taken <= MAX_QUEUE_COMMANDS,
                    total == lv.len(),
                    lv == lines.deep_view(),
                    r.deep_view() =~= Seq::new(taken as nat, |i: int| lv[total - 1 - i]),
                decreases total - taken,
            {
                let ghost prev = r.deep_view();
                r.push(lines[total - 1 - taken].clone());
                proof {
                    assert(r.deep_view() =~= prev.push(lv[total - 1 - taken]));
                    assert(r.deep_view() =~= Seq::new(
                        (taken + 1) as nat,
                        |i: int| lv[total - 1 - i],
                    ));
                }
                taken += 1;
            }
            proof {
                assert(r.deep_view() =~= queue_spec(content.deep_view()));
            }
            r
        },
    }
}

/// An optional string field of a record: absent or null decodes to no text,
/// a string to its text; any other kind makes the whole record malformed.
pub open spec fn opt_text_spec(f: Option<JsonView>) -> Option<Option<Seq<char>>> {
    match f {
        None => Some(None),
        Some(JsonView::Null) => Some(None),
        Some(JsonView::Text(t)) => Some(Some(t)),
        Some(_) => None,
    }
}

/// The texts of an array whose elements are all strings; `None` otherwise.
pub open spec fn texts_of(items: Seq<JsonView>) -> Option<Seq<Seq<char>>>
    decreases items,
{
    if items.len() == 0 {
        Some(Seq::empty())
    } else {
        match items[0] {
            JsonView::Text(t) => match texts_of(items.drop_first()) {
                Some(rest) => Some(seq![t] + rest),
                None => None,
            },
            _ => None,
        }
    }
}

/// An optional string-array field: absent or null decodes to no list, an
/// array of strings to its texts; any other shape makes the record
/// malformed.
pub open spec fn opt_texts_spec(f: Option<JsonView>) -> Option<Option<Seq<Seq<char>>>> {
    match f {
        None => Some(None),
        Some(JsonView::Null) => Some(None),
        Some(JsonView::Array(items)) => match texts_of(items) {
            Some(ts) => Some(Some(ts)),
            None => None,
        },
        Some(_) => None,
    }
}

/// The agent record a document decodes to: a JSON object with mandatory
/// string members `uuid` and `name`, an optional string `description`, and
/// an optional string array `capabilities`; any other shape is malformed.
pub open spec fn card_of_doc(doc: JsonView) -> Option<AgentCardView> {
    match doc {
        JsonView::Object(m) => match (member_lookup(m, ("uuid")@), member_lookup(m, ("name")@)) {
            (Some(JsonView::Text(uuid)), Some(JsonView::Text(name))) => match (
                opt_text_spec(member_lookup(m, ("description")@)),
                opt_texts_spec(member_lookup(m, ("capabilities")@)),
            ) {
                (Some(description), Some(capabilities)) => Some(
                    AgentCardView { uuid, name, description, capabilities },
                ),
                _ => None,
            },
            _ => None,
        },
        _ => None,
    }
}

/// The agent record one discovery file's text decodes to.
pub open spec fn card_of(text: Seq<char>) -> Option<AgentCardView> {
    match json_of(text) {
        Some(doc) => card_of_doc(doc),
        None => None,
    }
}

/// The records of the files that decode, one per valid card, in file order.
pub open spec fn cards_of(files: Seq<Seq<char>>) -> Seq<AgentCardView>
    decreases files,
{
    if files.len() == 0 {
        Seq::empty()
    } else {
        match card_of(files[0]) {
            Some(c) => seq![c] + cards_of(files.drop_first()),
            None => cards_of(files.drop_first()),
        }
    }
}

/// The strings of an array of strings; `None` if any element is not a
/// string.
fn texts_from(items: &Vec<JsonValue>) -> (r: Option<Vec<String>>)
    ensures
        (match r {
            Some(v) => texts_of(views_of_values(items@)) == Some(v.deep_view()),
            None => texts_of(views_of_values(items@)) is None,
        }),
{
    proof {
        lemma_views_of_values_index(items@);
    }
    let ghost iv = views_of_values(items@);
    let mut out: Vec<String> = Vec::new();
    let mut i: usize = 0;
    proof {
        assert(iv.skip(0) =~= iv);
        assert(out.deep_view() =~= Seq::<Seq<char>>::empty());
    }
    while i < items.len()
        invariant
            i <= items@.len(),
            iv == views_of_values(items@),
            iv.len() == items@.len(),
            forall|k: int| 0 <= k < items@.len() ==> #[trigger] iv[k] == items@[k].deep_view(),
            texts_of(iv) == (match texts_of(iv.skip(i as int)) {
                Some(rest) => Some(out.deep_view() + rest),
                None => None::<Seq<Seq<char>>>,
            }),
        decreases items@.len() - i,
    {
        let ghost rest = iv.skip(i as int);
        proof {
            assert(rest[0] == iv[i as int]);
            assert(rest.drop_first() =~= iv.skip(i + 1));
        }
        match &items[i] {
            JsonValue::Text(s) => {
                let ghost prev = out.deep_view();
                out.push(s.clone());
                proof {
                    assert(out.deep_view() =~= prev.push(s@));
                    match texts_of(iv.skip(i + 1)) {
                        Some(tail) => {
                            assert(prev + (seq![s@] + tail) =~= out.deep_view() + tail);
                        },
                        None => {},
                    }
                }
            },
            _ => {
                return None;
            },
        }
        i += 1;
    }
    proof {
        assert(iv.skip(iv.len() as int) =~= Seq::<JsonView>::empty());
        assert(out.deep_view() + Seq::<Seq<char>>::empty() =~= out.deep_view());
    }
    Some(out)
}

/// Decode one agent-card file.
pub fn parse_agent_card(text: &str) -> (r: Option<AgentCard>)
    ensures
        r.deep_view() == card_of(text@),
{
    let doc = match parse_json(text) {
        Some(d) => d,
        None => {
            return None;
        },
    };
    let members = match doc {
        JsonValue::Object(m) => m,
        _ => {
            return None;
        },
    };
    let uuid = match get_member(&members, &String::from_str("uuid")) {
        Some(f) => match f {
            JsonValue::Text(s) => s.clone(),
            _ => {
                return None;
            },
        },
        None => {
            return None;
        },
    };
    let name = match get_member(&members, &String::from_str("name")) {
        Some(f) => match f {
            JsonValue::Text(s) => s.clone(),
            _ => {
                return None;
            },
        },
        None => {
            return None;
        },
    };
    let description = match get_member(&members, &String::from_str("description")) {
        None => None,
        Some(f) => match f {
            JsonValue::Null => None,
            JsonValue::Text(s) => Some(s.clone()),
            _ => {
                return None;
            },
        },
    };
    let capabilities = match get_member(&members, &String::from_str("capabilities")) {
        None => None,
        Some(f) => match f {
            JsonValue::Null => None,
            JsonValue::Array(items) => match texts_from(items) {
                Some(ts) => Some(ts),
                None => {
                    return None;
                },
            },
            _ => {
                return None;
            },
        },
    };
    let card = AgentCard { uuid, name, description, capabilities };
    proof {
        assert(card_of(text@) matches Some(cv) && cv =~= card@);
    }
    Some(card)
}

/// Decode every agent-card file that decodes; a malformed card is skipped
/// and never aborts the scan, so exactly the valid cards come out, in file
/// order.
pub fn scan_agents(files: &Vec<String>) -> (r: Vec<AgentCard>)
    ensures
        r.deep_view() == cards_of(files.deep_view()),
        r@.len() <= files@.len(),
{
    let ghost fv = files.deep_view();
    let mut out: Vec<AgentCard> = Vec::new();
    let mut i: usize = 0;
    proof {
        assert(fv.skip(0) =~= fv);
        assert(out.deep_view() =~= Seq::<AgentCardView>::empty());
    }
    while i < files.len()
        invariant
            i <= files@.len(),
            fv == files.deep_view(),
            fv.len() == files@.len(),
            out@.len() <= i,
            cards_of(fv) =~= out.deep_view() + cards_of(fv.skip(i as int)),
        decreases files@.len() - i,
    {
        let ghost rest = fv.skip(i as int);
        proof {
            assert(rest[0] == fv[i as int]);
            assert(rest.drop_first() =~= fv.skip(i + 1));
        }
        if let Some(card) = parse_agent_card(files[i].as_str()) {
            let ghost prev = out.deep_view();
            let ghost cv = card@;
            out.push(card);
            proof {
                assert(out.deep_view() =~= prev.push(cv));
                assert(prev + (seq![cv] + cards_of(fv.skip(i + 1))) =~= out.deep_view()
                    + cards_of(fv.skip(i + 1)));
            }
        }
        i += 1;
    }
    proof {
        assert(fv.skip(fv.len() as int) =~= Seq::<Seq<char>>::empty());
        assert(out.deep_view() + Seq::<AgentCardView>::empty() =~= out.deep_view());
    }
    out
}

/// The used-memory sample a metrics text decodes to: present exactly when
/// the text is a JSON object whose `used` member is an unsigned 64-bit
/// number; anything else is a failed read.
pub open spec fn memory_of(text: Seq<char>) -> Option<u64> {
    match json_of(text) {
        Some(JsonView::Object(m)) => match member_lookup(m, ("used")@) {
            Some(JsonView::UInt(u)) => Some(u),
            _ => None,
        },
        _ => None,
    }
}

/// What the memory reader returns for the file's text, if any.
pub open spec fn memory_spec(content: Option<Seq<char>>) -> Option<u64> {
    match content {
        Some(s) => memory_of(s),
        None => None,
    }
}

/// Decode the memory-metrics snapshot. A missing file, malformed JSON, or an
/// absent or ill-typed `used` field is a failed read and yields `None`, so
/// the refresh appends no sample.
pub fn read_memory(content: &Option<String>) -> (r: Option<MemoryMetrics>)
    ensures
        (match r {
            Some(mm) => memory_spec(content.deep_view()) == Some(mm.used),
            None => memory_spec(content.deep_view()) is None,
        }),
{
    let text = match content {
        None => {
            return None;
        },
        Some(s) => s,
    };
    let doc = match parse_json(text.as_str()) {
        Some(d) => d,
        None => {
            return None;
        },
    };
    let members = match doc {
        JsonValue::Object(m) => m,
        _ => {
            return None;
        },
    };
    match get_member(&members, &String::from_str("used")) {
        Some(f) => match f {
            JsonValue::UInt(u) => Some(MemoryMetrics { used: *u }),
            _ => None,
        },
        None => None,
    }
}

/// The alert a document decodes to: a JSON object with string members
/// `path`, `message` and `severity`; any other shape is malformed.
pub open spec fn alert_of_doc(item: JsonView) -> Option<AlertView> {
    match item {
        JsonView::Object(m) => match (
            member_lookup(m, ("path")@),
            member_lookup(m, ("message")@),
            member_lookup(m, ("severity")@),
        ) {
            (
                Some(JsonView::Text(path)),
                Some(JsonView::Text(message)),
                Some(JsonView::Text(severity)),
            ) => Some(AlertView { path, message, severity }),
            _ => None,
        },
        _ => None,
    }
}

/// The well-formed alerts among the array's elements, in array order; a
/// malformed element is skipped individually.
pub open spec fn alerts_of_items(items: Seq<JsonView>) -> Seq<AlertView>
    decreases items,
{
    if items.len() == 0 {
        Seq::empty()
    } else {
        match alert_of_doc(items[0]) {
            Some(a) => seq![a] + alerts_of_items(items.drop_first()),
            None => alerts_of_items(items.drop_first()),
        }
    }
}

/// What the alert reader returns: the well-formed records of a JSON array,
/// in order; a missing file, malformed JSON or a non-array document yields
/// an empty list.
pub open spec fn alerts_spec(content: Option<Seq<char>>) -> Seq<AlertView> {
    match content {
        Some(s) => match json_of(s) {
            Some(JsonView::Array(items)) => alerts_of_items(items),
            _ => Seq::empty(),
        },
        None => Seq::empty(),
    }
}

/// Decode one element of the report array.
fn alert_of_value(v: &JsonValue) -> (r: Option<SemgrepAlert>)
    ensures
        (match r {
            Some(a) => alert_of_doc(v.deep_view()) == Some(a@),
            None => alert_of_doc(v.deep_view()) is None,
        }),
{
    let members = match v {
        JsonValue::Object(m) => m,
        _ => {
            return None;
        },
    };
    let path = match get_member(members, &String::from_str("path")) {
        Some(JsonValue::Text(s)) => s.clone(),
        _ => {
            return None;
        },
    };
    let message = match get_member(members, &String::from_str("message")) {
        Some(JsonValue::Text(s)) => s.clone(),
        _ => {
            return None;
        },
    };
    let severity = match get_member(members, &String::from_str("severity")) {
        Some(JsonValue::Text(s)) => s.clone(),
        _ => {
            return None;
        },
    };
    Some(SemgrepAlert { path, message, severity })
}

/// Decode the static-analysis report.
pub fn read_semgrep(content: &Option<String>) -> (r: Vec<SemgrepAlert>)
    ensures
        r.deep_view() == alerts_spec(content.deep_view()),
{
    let text = match content {
        None => {
            let r: Vec<SemgrepAlert> = Vec::new();
            proof {
                assert(r.deep_view() =~= alerts_spec(content.deep_view()));
            }
            return r;
        },
        Some(s) => s,
    };
    let doc = match parse_json(text.as_str()) {
        Some(d) => d,
        None => {
            let r: Vec<SemgrepAlert> = Vec::new();
            proof {
                assert(r.deep_view() =~= alerts_spec(content.deep_view()));
            }
            return r;
        },
    };
    let items = match doc {
        JsonValue::Array(a) => a,
        _ => {
            let r: Vec<SemgrepAlert> = Vec::new();
            proof {
                assert(r.deep_view() =~= alerts_spec(content.deep_view()));
            }
            return r;
        },
    };
    proof {
        lemma_views_of_values_index(items@);
    }
    let ghost iv = views_of_values(items@);
    let mut out: Vec<SemgrepAlert> = Vec::new();
    let mut i: usize = 0;
    proof {
        assert(iv.skip(0) =~= iv);
        assert(out.deep_view() =~= Seq::<AlertView>::empty());
    }
    while i < items.len()
        invariant
            i <= items@.len(),
            iv == views_of_values(items@),
            iv.len() == items@.len(),
            forall|k: int| 0 <= k < items@.len() ==> #[trigger] iv[k] == items@[k].deep_view(),
            alerts_of_items(iv) =~= out.deep_view() + alerts_of_items(iv.skip(i as int)),
        decreases items@.len() - i,
    {
        let ghost rest = iv.skip(i as int);
        proof {
            assert(rest[0] == iv[i as int]);
            assert(rest.drop_first() =~= iv.skip(i + 1));
        }
        if let Some(alert) = alert_of_value(&items[i]) {
            let ghost prev = out.deep_view();
            let ghost av = alert@;
            out.push(alert);
            proof {
                assert(out.deep_view() =~= prev.push(av));
                assert(prev + (seq![av] + alerts_of_items(iv.skip(i + 1))) =~= out.deep_view()
                    + alerts_of_items(iv.skip(i + 1)));
            }
        }
        i += 1;
    }
    proof {
        assert(iv.skip(iv.len() as int) =~= Seq::<JsonView>::empty());
        assert(out.deep_view() + Seq::<AlertView>::empty() =~= out.deep_view());
        assert(out.deep_view() =~= alerts_spec(content.deep_view()));
    }
    out
}

} // verus!
