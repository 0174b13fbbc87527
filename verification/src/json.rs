//! A JSON document model used to build configuration and subscription documents.
use vstd::prelude::*;

verus! {

/// A JSON value.
#[derive(Debug, PartialEq)]
pub enum JsonValue {
    Null,
    Bool(bool),
    /// A whole number within the range of `i64`.
    Int(i64),
    /// A whole number above `i64::MAX`.
    UInt(u64),
    /// A number with a fraction or exponent, kept as its JSON text.
    Float(String),
    Str(String),
    Array(Vec<JsonValue>),
    /// Members in order; keys are expected to be distinct.
    Object(Vec<(String, JsonValue)>),
}

/// The mathematical content of a JSON value.
pub enum JsonView {
    Null,
    Bool(bool),
    Int(int),
    Float(Seq<char>),
    Str(Seq<char>),
    Array(Seq<JsonView>),
    Object(Seq<(Seq<char>, JsonView)>),
}

pub open spec fn json_view(v: JsonValue) -> JsonView
    decreases v,
{
    match v {
        JsonValue::Null => JsonView::Null,
        JsonValue::Bool(b) => JsonView::Bool(b),
        JsonValue::Int(i) => JsonView::Int(i as int),
        JsonValue::UInt(u) => JsonView::Int(u as int),
        JsonValue::Float(t) => JsonView::Float(t@),
        JsonValue::Str(s) => JsonView::Str(s@),
        JsonValue::Array(items) => JsonView::Array(items_view(items@)),
        JsonValue::Object(members) => JsonView::Object(members_view(members@)),
    }
}

pub open spec fn items_view(s: Seq<JsonValue>) -> Seq<JsonView>
    decreases s,
{
    if s.len() == 0 {
        Seq::empty()
    } else {
        seq![json_view(s[0])] + items_view(s.subrange(1, s.len() as int))
    }
}

pub open spec fn members_view(s: Seq<(String, JsonValue)>) -> Seq<(Seq<char>, JsonView)>
    decreases s,
{
    if s.len() == 0 {
        Seq::empty()
    } else {
        seq![(s[0].0@, json_view(s[0].1))] + members_view(s.subrange(1, s.len() as int))
    }
}

impl View for JsonValue {
    type V = JsonView;

    open spec fn view(&self) -> JsonView {
        json_view(*self)
    }
}

/// The member stored under `key`: the first one whose key matches.
pub open spec fn member_lookup(members: Seq<(Seq<char>, JsonView)>, key: Seq<char>) -> Option<JsonView>
    decreases members.len(),
{
    if members.len() == 0 {
        None
    } else if members[0].0 == key {
        Some(members[0].1)
    } else {
        member_lookup(members.subrange(1, members.len() as int), key)
    }
}

impl JsonView {
    /// The member stored under `key` when this is an object.
    pub open spec fn get(self, key: Seq<char>) -> Option<JsonView> {
        match self {
            JsonView::Object(members) => member_lookup(members, key),
            _ => None,
        }
    }

    /// The text when this is a string.
    pub open spec fn as_str(self) -> Option<Seq<char>> {
        match self {
            JsonView::Str(s) => Some(s),
            _ => None,
        }
    }

    /// The number when this is a whole number that fits in a `u64`.
    pub open spec fn as_u64(self) -> Option<u64> {
        match self {
            JsonView::Int(i) => if 0 <= i <= u64::MAX { Some(i as u64) } else { None },
            _ => None,
        }
    }

    /// The items when this is an array.
    pub open spec fn as_array(self) -> Option<Seq<JsonView>> {
        match self {
            JsonView::Array(items) => Some(items),
            _ => None,
        }
    }
}

/// The view of an optional borrowed value.
pub open spec fn opt_view(o: Option<&JsonValue>) -> Option<JsonView> {
    match o {
        Some(v) => Some(json_view(*v)),
        None => None,
    }
}

pub proof fn lemma_items_view(s: Seq<JsonValue>)
    ensures
        items_view(s).len() == s.len(),
        forall|i: int| 0 <= i < s.len() ==> #[trigger] items_view(s)[i] == json_view(s[i]),
    decreases s.len(),
{
    if s.len() > 0 {
        let t = s.subrange(1, s.len() as int);
        lemma_items_view(t);
        assert forall|i: int| 0 <= i < s.len() implies #[trigger] items_view(s)[i] == json_view(s[i]) by {
            if i > 0 {
                assert(t[i - 1] == s[i]);
            }
        }
    }
}

pub proof fn lemma_members_view(s: Seq<(String, JsonValue)>)
    ensures
        members_view(s).len() == s.len(),
        forall|i: int| 0 <= i < s.len() ==> #[trigger] members_view(s)[i] == (s[i].0@, json_view(s[i].1)),
    decreases s.len(),
{
    if s.len() > 0 {
        let t = s.subrange(1, s.len() as int);
        lemma_members_view(t);
        assert forall|i: int| 0 <= i < s.len() implies #[trigger] members_view(s)[i] == (s[i].0@, json_view(s[i].1)) by {
            if i > 0 {
                assert(t[i - 1] == s[i]);
            }
        }
    }
}

/// Looking a key up in members written one after the other finds it in the first part when
/// it is there, and in the second part otherwise.
pub proof fn lemma_lookup_concat(a: Seq<(Seq<char>, JsonView)>, b: Seq<(Seq<char>, JsonView)>, key: Seq<char>)
    ensures
        member_lookup(a + b, key) == (match member_lookup(a, key) {
            Some(v) => Some(v),
            None => member_lookup(b, key),
        }),
    decreases a.len(),
{
    if a.len() > 0 {
        let rest = a.subrange(1, a.len() as int);
        lemma_lookup_concat(rest, b, key);
        assert((a + b).subrange(1, (a + b).len() as int) =~= rest + b);
        assert((a + b)[0] == a[0]);
    } else {
        assert(a + b =~= b);
    }
}

proof fn lemma_lookup_skip(m: Seq<(Seq<char>, JsonView)>, key: Seq<char>, i: int)
    requires
        0 <= i < m.len(),
        m[i].0 != key,
    ensures
        member_lookup(m.subrange(i, m.len() as int), key) == member_lookup(m.subrange(i + 1, m.len() as int), key),
{
    let t = m.subrange(i, m.len() as int);
    assert(t.subrange(1, t.len() as int) =~= m.subrange(i + 1, m.len() as int));
}

impl JsonValue {
    /// The member stored under `key` when this is an object (the first match).
    pub fn get(&self, key: &str) -> (r: Option<&JsonValue>)
        ensures
            opt_view(r) == self@.get(key@),
    {
        match self {
            JsonValue::Object(members) => {
                let ghost m = members_view(members@);
                proof {
                    lemma_members_view(members@);
                    assert(m.subrange(0, m.len() as int) =~= m);
                }
                let mut i: usize = 0;
                while i < members.len()
                    invariant
                        0 <= i <= members.len(),
                        m == members_view(members@),
                        *self == JsonValue::Object(*members),
                        m.len() == members@.len(),
                        forall|j: int| 0 <= j < members@.len() ==> #[trigger] m[j] == (members@[j].0@, json_view(members@[j].1)),
                        member_lookup(m, key@) == member_lookup(m.subrange(i as int, m.len() as int), key@),
                    decreases members.len() - i,
                {
                    if crate::text::str_eq(members[i].0.as_str(), key) {
                        let ghost t = m.subrange(i as int, m.len() as int);
                        assert(t[0] == m[i as int]);
                        assert(m[i as int].0 == key@);
                        assert(member_lookup(t, key@) == Some(t[0].1));
                        return Some(&members[i].1);
                    }
                    proof {
                        lemma_lookup_skip(m, key@, i as int);
                    }
                    i = i + 1;
                }
                assert(m.subrange(i as int, m.len() as int).len() == 0);
                None
            },
            _ => None,
        }
    }

    /// The text when this is a string.
    pub fn as_str(&self) -> (r: Option<&str>)
        ensures
            match r {
                Some(s) => self@.as_str() == Some(s@),
                None => self@.as_str() is None,
            },
    {
        match self {
            JsonValue::Str(s) => Some(s.as_str()),
            _ => None,
        }
    }

    /// The number when this is a whole number that fits in a `u64`.
    pub fn as_u64(&self) -> (r: Option<u64>)
        ensures
            r == self@.as_u64(),
    {
        match self {
            JsonValue::Int(i) => if *i >= 0 { Some(*i as u64) } else { None },
            JsonValue::UInt(u) => Some(*u),
            _ => None,
        }
    }

    /// The items when this is an array.
    pub fn as_array(&self) -> (r: Option<&Vec<JsonValue>>)
        ensures
            match r {
                Some(items) => self@.as_array() == Some(items_view(items@)),
                None => self@.as_array() is None,
            },
    {
        match self {
            JsonValue::Array(items) => Some(items),
            _ => None,
        }
    }
}

#[verifier::external_type_specification]
#[verifier::external_body]
pub struct ExSerdeJsonValue(serde_json::Value);

/// The text `serde_json::to_string` writes for the `serde_json::Value` with the content `v`.
/// That value keeps object members in a `serde_json::Map`, so they are written ordered by key,
/// a later member replacing an earlier one with the same key.
pub uninterp spec fn compact_text(v: JsonView) -> Seq<char>;

/// The text `serde_json::to_string_pretty` writes for the `serde_json::Value` with the content
/// `v` (members ordered as for `compact_text`).
pub uninterp spec fn pretty_text(v: JsonView) -> Seq<char>;

/// The content of the `serde_json::Value` that `serde_json::from_str` reads from a text, or
/// `None` where it rejects the text.
pub uninterp spec fn parsed(text: Seq<char>) -> Option<JsonView>;

/// The `serde_json::Value` with the same content, built member for member. Used only inside
/// the calls below; nothing is claimed of it.
#[verifier::external_body]
fn into_serde(v: &JsonValue) -> serde_json::Value {
    match v {
        JsonValue::Null => serde_json::Value::Null,
        JsonValue::Bool(b) => serde_json::Value::Bool(*b),
        JsonValue::Int(i) => serde_json::Value::from(*i),
        JsonValue::UInt(u) => serde_json::Value::from(*u),
        JsonValue::Float(t) => t.parse::<serde_json::Number>().map(serde_json::Value::Number).unwrap_or(serde_json::Value::Null),
        JsonValue::Str(s) => serde_json::Value::String(s.clone()),
        JsonValue::Array(items) => serde_json::Value::Array(items.iter().map(into_serde).collect()),
        JsonValue::Object(members) => serde_json::Value::Object(members.iter().map(|(k, x)| (k.clone(), into_serde(x))).collect()),
    }
}

/// This library's value with the same content as a `serde_json::Value`. Used only inside the
/// call below; nothing is claimed of it.
#[verifier::external_body]
fn from_serde(v: serde_json::Value) -> JsonValue {
    match v {
        serde_json::Value::Null => JsonValue::Null,
        serde_json::Value::Bool(b) => JsonValue::Bool(b),
        serde_json::Value::Number(n) => match (n.as_i64(), n.as_u64()) {
            (Some(i), _) => JsonValue::Int(i),
            (None, Some(u)) => JsonValue::UInt(u),
            (None, None) => JsonValue::Float(n.to_string()),
        },
        serde_json::Value::String(s) => JsonValue::Str(s),
        serde_json::Value::Array(items) => JsonValue::Array(items.into_iter().map(from_serde).collect()),
        serde_json::Value::Object(members) => JsonValue::Object(members.into_iter().map(|(k, x)| (k, from_serde(x))).collect()),
    }
}

/// Calls `serde_json::to_string` on the `serde_json::Value` with the content of `v`; the text
/// is claimed to be `compact_text(v@)` (writing such a value cannot fail).
#[verifier::external_body]
fn serde_to_string(v: &JsonValue) -> (r: String)
    ensures
        r@ == compact_text(v@),
{
    serde_json::to_string(&into_serde(v)).unwrap_or_default()
}

/// Calls `serde_json::to_string_pretty` on the `serde_json::Value` with the content of `v`;
/// the text is claimed to be `pretty_text(v@)`.
#[verifier::external_body]
fn serde_to_string_pretty(v: &JsonValue) -> (r: String)
    ensures
        r@ == pretty_text(v@),
{
    serde_json::to_string_pretty(&into_serde(v)).unwrap_or_default()
}

/// Calls `serde_json::from_str` into a `serde_json::Value` and converts it; the outcome is
/// claimed to be `parsed` of the text.
#[verifier::external_body]
fn serde_from_str(text: &str) -> (r: Option<JsonValue>)
    ensures
        match r {
            Some(v) => parsed(text@) == Some(v@),
            None => parsed(text@) is None,
        },
{
    serde_json::from_str::<serde_json::Value>(text).ok().map(from_serde)
}

/// Compact JSON text of a value.
pub fn to_text(v: &JsonValue) -> (r: String)
    ensures
        r@ == compact_text(v@),
{
    serde_to_string(v)
}

/// Indented JSON text of a value.
pub fn to_pretty_text(v: &JsonValue) -> (r: String)
    ensures
        r@ == pretty_text(v@),
{
    serde_to_string_pretty(v)
}

/// Reads a JSON document.
pub fn parse(text: &str) -> (r: Option<JsonValue>)
    ensures
        match r {
            Some(v) => parsed(text@) == Some(v@),
            None => parsed(text@) is None,
        },
{
    serde_from_str(text)
}

/// An object member.
pub fn member(key: &str, value: JsonValue) -> (r: (String, JsonValue))
    ensures
        r.0@ == key@,
        r.1 == value,
{
    (crate::text::owned(key), value)
}

/// Appends a member to an object's member list.
pub fn push_member(m: &mut Vec<(String, JsonValue)>, key: &str, value: JsonValue)
    ensures
        members_view(final(m)@) == members_view(old(m)@).push((key@, value@)),
{
    let ghost before = m@;
    m.push((crate::text::owned(key), value));
    proof {
        lemma_members_view(before);
        lemma_members_view(m@);
        assert(members_view(m@) =~= members_view(before).push((key@, value@)));
    }
}

/// Appends an item to an array's item list.
pub fn push_item(items: &mut Vec<JsonValue>, value: JsonValue)
    ensures
        items_view(final(items)@) == items_view(old(items)@).push(value@),
{
    let ghost before = items@;
    items.push(value);
    proof {
        lemma_items_view(before);
        lemma_items_view(items@);
        assert(items_view(items@) =~= items_view(before).push(value@));
    }
}

/// The views of strings as JSON strings.
pub open spec fn strings_view(s: Seq<String>) -> Seq<JsonView> {
    Seq::new(s.len(), |i: int| JsonView::Str(s[i]@))
}

/// An array of strings.
pub fn string_array(items: &Vec<String>) -> (r: JsonValue)
    ensures
        r@ == JsonView::Array(strings_view(items@)),
{
    let mut out: Vec<JsonValue> = Vec::new();
    let mut i: usize = 0;
    while i < items.len()
        invariant
            i <= items.len(),
            out@.len() == i,
            forall|k: int| 0 <= k < i ==> #[trigger] json_view(out@[k]) == JsonView::Str(items@[k]@),
        decreases items.len() - i,
    {
        out.push(string(items[i].as_str()));
        i = i + 1;
    }
    proof {
        lemma_items_view(out@);
        assert(items_view(out@) =~= strings_view(items@));
    }
    JsonValue::Array(out)
}

/// An empty object.
pub fn empty_object() -> (r: JsonValue)
    ensures
        r@ == JsonView::Object(Seq::empty()),
{
    let m: Vec<(String, JsonValue)> = Vec::new();
    assert(members_view(m@) =~= Seq::<(Seq<char>, JsonView)>::empty());
    JsonValue::Object(m)
}

/// A string value.
pub fn string(s: &str) -> (r: JsonValue)
    ensures
        r@ == JsonView::Str(s@),
{
    JsonValue::Str(crate::text::owned(s))
}

} // verus!
