//! The trusted boundary to serde_json, and the library's own model of a
//! parsed JSON document. The parse is named (`json_of`), so every reader's
//! contract can say exactly what it decodes; all field logic is verified
//! code over the model.
use vstd::prelude::*;

verus! {

#[verifier::external_type_specification]
#[verifier::external_body]
pub struct ExValue(serde_json::Value);

/// A parsed JSON document. A number that is not an unsigned 64-bit integer
/// is kept only as `OtherNum`: no reader consumes such a number, and floats
/// cannot be carried here.
#[derive(Debug)]
pub enum JsonValue {
    Null,
    Bool(bool),
    UInt(u64),
    OtherNum,
    Text(String),
    Array(Vec<JsonValue>),
    Object(Vec<(String, JsonValue)>),
}

/// The mathematical value of a document.
pub enum JsonView {
    Null,
    Bool(bool),
    UInt(u64),
    OtherNum,
    Text(Seq<char>),
    Array(Seq<JsonView>),
    Object(Seq<(Seq<char>, JsonView)>),
}

/// The views of an array's elements, in order.
pub open spec fn views_of_values(a: Seq<JsonValue>) -> Seq<JsonView>
    decreases a,
{
    if a.len() == 0 {
        Seq::empty()
    } else {
        seq![a[0].deep_view()] + views_of_values(a.drop_first())
    }
}

/// The views of an object's members, in order.
pub open spec fn views_of_members(m: Seq<(String, JsonValue)>) -> Seq<(Seq<char>, JsonView)>
    decreases m,
{
    if m.len() == 0 {
        Seq::empty()
    } else {
        seq![(m[0].0@, m[0].1.deep_view())] + views_of_members(m.drop_first())
    }
}

impl DeepView for JsonValue {
    type V = JsonView;

    open spec fn deep_view(&self) -> JsonView
        decreases self,
    {
        match self {
            JsonValue::Null => JsonView::Null,
            JsonValue::Bool(b) => JsonView::Bool(*b),
            JsonValue::UInt(u) => JsonView::UInt(*u),
            JsonValue::OtherNum => JsonView::OtherNum,
            JsonValue::Text(s) => JsonView::Text(s@),
            JsonValue::Array(a) => JsonView::Array(views_of_values(a@)),
            JsonValue::Object(m) => JsonView::Object(views_of_members(m@)),
        }
    }
}

pub proof fn lemma_views_of_values_index(a: Seq<JsonValue>)
    ensures
        views_of_values(a).len() == a.len(),
        forall|i: int| 0 <= i < a.len() ==> #[trigger] views_of_values(a)[i] == a[i].deep_view(),
    decreases a,
{
    if a.len() > 0 {
        lemma_views_of_values_index(a.drop_first());
        assert(views_of_values(a) == seq![a[0].deep_view()] + views_of_values(a.drop_first()));
        assert forall|i: int| 0 <= i < a.len() implies #[trigger] views_of_values(a)[i] == a[
            i
        ].deep_view() by {
            if i > 0 {
                assert(a.drop_first()[i - 1] == a[i]);
                assert(views_of_values(a)[i] == views_of_values(a.drop_first())[i - 1]);
            } else {
                assert(views_of_values(a)[0] == a[0].deep_view());
            }
        }
    } else {
        assert(views_of_values(a).len() == 0);
    }
}

pub proof fn lemma_views_of_members_index(m: Seq<(String, JsonValue)>)
    ensures
        views_of_members(m).len() == m.len(),
        forall|i: int| 0 <= i < m.len() ==> #[trigger] views_of_members(m)[i] == (
            m[i].0@,
            m[i].1.deep_view(),
        ),
    decreases m,
{
    if m.len() > 0 {
        lemma_views_of_members_index(m.drop_first());
        assert(views_of_members(m) == seq![(m[0].0@, m[0].1.deep_view())] + views_of_members(
            m.drop_first(),
        ));
        assert forall|i: int| 0 <= i < m.len() implies #[trigger] views_of_members(m)[i] == (
            m[i].0@,
            m[i].1.deep_view(),
        ) by {
            if i > 0 {
                assert(m.drop_first()[i - 1] == m[i]);
                assert(views_of_members(m)[i] == views_of_members(m.drop_first())[i - 1]);
            } else {
                assert(views_of_members(m)[0] == (m[0].0@, m[0].1.deep_view()));
            }
        }
    } else {
        assert(views_of_members(m).len() == 0);
    }
}

/// What `serde_json::from_str` makes of a text: `None` for malformed JSON,
/// else the document. The result is a function of the text alone; nothing
/// else is assumed of it.
pub uninterp spec fn json_of(s: Seq<char>) -> Option<JsonView>;

/// Relies on serde_json::from_str: `Some` exactly when the text is valid
/// JSON; the document, converted one-for-one into the library's model, is a
/// function of the text alone, here named `json_of`.
#[verifier::external_body]
pub(crate) fn parse_json(s: &str) -> (r: Option<JsonValue>)
    ensures
        r.deep_view() == json_of(s@),
{
    serde_json::from_str::<serde_json::Value>(s).ok().map(value_to_model)
}

/// Relies on serde_json::Value and Number::as_u64: a one-for-one conversion
/// of the parsed document into the library's model, arm by arm; a number
/// that is not a u64 becomes `OtherNum`.
#[verifier::external_body]
fn value_to_model(v: serde_json::Value) -> JsonValue {
    match v {
        serde_json::Value::Null => JsonValue::Null,
        serde_json::Value::Bool(b) => JsonValue::Bool(b),
        serde_json::Value::Number(n) => n.as_u64().map_or(JsonValue::OtherNum, JsonValue::UInt),
        serde_json::Value::String(s) => JsonValue::Text(s),
        serde_json::Value::Array(a) => {
            JsonValue::Array(a.into_iter().map(value_to_model).collect())
        },
        serde_json::Value::Object(m) => {
            JsonValue::Object(m.into_iter().map(|(k, v)| (k, value_to_model(v))).collect())
        },
    }
}

/// The member of an object under a key: the first binding wins (the parser
/// never hands out a duplicate key).
pub open spec fn member_lookup(m: Seq<(Seq<char>, JsonView)>, key: Seq<char>) -> Option<JsonView>
    decreases m,
{
    if m.len() == 0 {
        None
    } else if m[0].0 == key {
        Some(m[0].1)
    } else {
        member_lookup(m.drop_first(), key)
    }
}

/// `member_lookup` is pinned by a prefix without the key and, if the key
/// occurs, its first position.
pub proof fn lemma_member_lookup_pin(m: Seq<(Seq<char>, JsonView)>, key: Seq<char>, k: nat)
    requires
        k <= m.len(),
        forall|i: int| 0 <= i < k ==> m[i].0 != key,
        k < m.len() ==> m[k as int].0 == key,
    ensures
        k < m.len() ==> member_lookup(m, key) == Some(m[k as int].1),
        k == m.len() ==> member_lookup(m, key) is None,
    decreases m,
{
    if m.len() == 0 {
    } else if m[0].0 == key {
    } else {
        let t = m.drop_first();
        assert forall|i: int| 0 <= i < k - 1 implies t[i].0 != key by {
            assert(t[i] == m[i + 1]);
        }
        if k < m.len() {
            assert(t[k - 1] == m[k as int]);
        }
        lemma_member_lookup_pin(t, key, (k - 1) as nat);
    }
}

/// Look a key up among an object's members.
pub fn get_member<'a>(members: &'a Vec<(String, JsonValue)>, key: &String) -> (r: Option<
    &'a JsonValue,
>)
    ensures
        (match r {
            Some(v) => member_lookup(views_of_members(members@), key@) == Some(v.deep_view()),
            None => member_lookup(views_of_members(members@), key@) is None,
        }),
{
    proof {
        lemma_views_of_members_index(members@);
    }
    let ghost mv = views_of_members(members@);
    let mut i: usize = 0;
    while i < members.len()
        invariant
            i <= members@.len(),
            mv == views_of_members(members@),
            mv.len() == members@.len(),
            forall|k: int| 0 <= k < members@.len() ==> #[trigger] mv[k] == (
                members@[k].0@,
                members@[k].1.deep_view(),
            ),
            forall|k: int| 0 <= k < i ==> mv[k].0 != key@,
        decreases members@.len() - i,
    {
        if members[i].0 == *key {
            proof {
                lemma_member_lookup_pin(mv, key@, i as nat);
            }
            return Some(&members[i].1);
        }
        i += 1;
    }
    proof {
        lemma_member_lookup_pin(mv, key@, members@.len() as nat);
    }
    None
}

} // verus!
