use vstd::prelude::*;

use crate::text::{decimal, decimal_string, text_is};

verus! {

broadcast use vstd::string::group_string_axioms;

#[verifier::external_type_specification]
#[verifier::external_body]
pub struct ExSerdeNumber(serde_json::Number);

/// A JSON number: its JSON text, and its value where it is a non-negative
/// integer that fits in a `u64` (the only numbers whose value the logic
/// reads).
///
/// Its fields are private to this module, and only two functions make one:
/// [`JsonNumber::unsigned`], which holds a `u64` and its decimal text, and
/// `number_from_serde`, which holds a parsed `serde_json::Number` with its
/// `Display` text and `as_u64` value. Writing a number out writes that very
/// `serde_json::Number`, or the `u64`. The text fixes which: `serde_json`
/// writes an integer with digits alone and a float always with a `.` or an
/// exponent, and a float's text is the shortest that reads back as it.
#[derive(Debug, PartialEq)]
pub struct JsonNumber {
    text: String,
    unsigned: Option<u64>,
    parsed: Option<serde_json::Number>,
}

impl View for JsonNumber {
    type V = (Seq<char>, Option<u64>);

    closed spec fn view(&self) -> (Seq<char>, Option<u64>) {
        (self.text@, self.unsigned)
    }
}

impl JsonNumber {
    /// The number `n`.
    pub fn unsigned(n: u64) -> (r: JsonNumber)
        ensures
            r@ == (decimal(n as nat), Some(n)),
    {
        JsonNumber { text: decimal_string(n), unsigned: Some(n), parsed: None }
    }

    /// The JSON text of this number.
    pub fn text(&self) -> (t: &String)
        ensures
            t@ == self@.0,
    {
        &self.text
    }

    /// The value of this number, where it is a `u64`.
    pub fn as_u64(&self) -> (r: Option<u64>)
        ensures
            r == self@.1,
    {
        self.unsigned
    }

    /// A copy of this number.
    pub fn copy(&self) -> (r: JsonNumber)
        ensures
            r@ == self@,
    {
        JsonNumber { text: self.text.clone(), unsigned: self.unsigned, parsed: self.parsed.clone() }
    }
}

/// Takes a `serde_json::Number` over into a [`JsonNumber`]: its `Display`
/// text, its `as_u64` value, and itself.
#[verifier::external_body]
pub(crate) fn number_from_serde(n: serde_json::Number) -> JsonNumber {
    JsonNumber { text: n.to_string(), unsigned: n.as_u64(), parsed: Some(n) }
}

/// Takes a [`JsonNumber`] over into a `serde_json::Value`: the number parsed
/// where there is one, else the `u64` (`serde_json::Value::from`).
#[verifier::external_body]
pub(crate) fn number_to_serde(n: &JsonNumber) -> serde_json::Value {
    match (&n.parsed, n.unsigned) {
        (Some(p), _) => serde_json::Value::Number(p.clone()),
        (None, Some(u)) => serde_json::Value::from(u),
        (None, None) => serde_json::Value::Null,
    }
}

/// A JSON document as this library holds it. An object keeps its members in
/// order.
#[derive(Debug, PartialEq)]
pub enum Json {
    Null,
    Bool(bool),
    Number(JsonNumber),
    Str(String),
    Array(Vec<Json>),
    Object(Vec<(String, Json)>),
}

/// The mathematical model of a [`Json`] value.
pub enum JsonView {
    Null,
    Bool(bool),
    Number(Seq<char>, Option<u64>),
    Str(Seq<char>),
    Array(Seq<JsonView>),
    Object(Seq<(Seq<char>, JsonView)>),
}

/// The value of the first member named `key`.
pub open spec fn member(members: Seq<(Seq<char>, JsonView)>, key: Seq<char>) -> Option<JsonView>
    decreases members.len(),
{
    if members.len() == 0 {
        None
    } else if members[0].0 == key {
        Some(members[0].1)
    } else {
        member(members.drop_first(), key)
    }
}

impl JsonView {
    /// `value.get(key)`: the member `key` of an object; nothing for other values.
    pub open spec fn get(self, key: Seq<char>) -> Option<JsonView> {
        match self {
            JsonView::Object(members) => member(members, key),
            _ => None,
        }
    }

    /// The member `key`, or `Null` where there is none; a chain of these reads
    /// as a chain of `get` calls joined by `and_then`.
    pub open spec fn at(self, key: Seq<char>) -> JsonView {
        match self.get(key) {
            Some(v) => v,
            None => JsonView::Null,
        }
    }

    /// `value.as_str()`.
    pub open spec fn as_str(self) -> Option<Seq<char>> {
        match self {
            JsonView::Str(s) => Some(s),
            _ => None,
        }
    }

    /// `value.as_u64()`.
    pub open spec fn as_u64(self) -> Option<u64> {
        match self {
            JsonView::Number(_, n) => n,
            _ => None,
        }
    }

    /// A JSON string.
    pub open spec fn string(s: Seq<char>) -> JsonView {
        JsonView::Str(s)
    }

    /// A JSON number holding `n`.
    pub open spec fn unsigned(n: u64) -> JsonView {
        JsonView::Number(decimal(n as nat), Some(n))
    }

    /// The empty JSON object.
    pub open spec fn empty_object() -> JsonView {
        JsonView::Object(Seq::empty())
    }
}

impl Json {
    pub open spec fn view_items(items: Seq<Json>) -> Seq<JsonView>
        decreases items,
    {
        if items.len() == 0 {
            Seq::empty()
        } else {
            Self::view_items(items.drop_last()).push(items.last().view_json())
        }
    }

    pub open spec fn view_members(members: Seq<(String, Json)>) -> Seq<(Seq<char>, JsonView)>
        decreases members,
    {
        if members.len() == 0 {
            Seq::empty()
        } else {
            Self::view_members(members.drop_last()).push(
                (members.last().0@, members.last().1.view_json()),
            )
        }
    }

    pub open spec fn view_json(self) -> JsonView
        decreases self,
    {
        match self {
            Json::Null => JsonView::Null,
            Json::Bool(b) => JsonView::Bool(b),
            Json::Number(n) => JsonView::Number(n@.0, n@.1),
            Json::Str(s) => JsonView::Str(s@),
            Json::Array(a) => JsonView::Array(Self::view_items(a@)),
            Json::Object(o) => JsonView::Object(Self::view_members(o@)),
        }
    }

    pub proof fn lemma_view_items(items: Seq<Json>)
        ensures
            Self::view_items(items).len() == items.len(),
            forall|i: int|
                0 <= i < items.len() ==> #[trigger] Self::view_items(items)[i]
                    == items[i].view_json(),
        decreases items.len(),
    {
        if items.len() > 0 {
            Self::lemma_view_items(items.drop_last());
        }
    }

    pub proof fn lemma_view_members(members: Seq<(String, Json)>)
        ensures
            Self::view_members(members).len() == members.len(),
            forall|i: int|
                0 <= i < members.len() ==> #[trigger] Self::view_members(members)[i] == (
                    members[i].0@,
                    members[i].1.view_json(),
                ),
        decreases members.len(),
    {
        if members.len() > 0 {
            Self::lemma_view_members(members.drop_last());
        }
    }

    pub proof fn lemma_view_items_push(items: Seq<Json>, j: Json)
        ensures
            Self::view_items(items.push(j)) == Self::view_items(items).push(j.view_json()),
    {
        assert(items.push(j).drop_last() =~= items);
    }

    pub proof fn lemma_view_members_push(members: Seq<(String, Json)>, m: (String, Json))
        ensures
            Self::view_members(members.push(m)) == Self::view_members(members).push(
                (m.0@, m.1.view_json()),
            ),
    {
        assert(members.push(m).drop_last() =~= members);
    }
}

impl View for Json {
    type V = JsonView;

    open spec fn view(&self) -> JsonView {
        self.view_json()
    }
}

/// The model of an optional borrowed value.
pub open spec fn opt_view(o: Option<&Json>) -> Option<JsonView> {
    match o {
        Some(v) => Some(v@),
        None => None,
    }
}

/// The model of an optional owned value.
pub open spec fn opt_json(o: Option<Json>) -> Option<JsonView> {
    match o {
        Some(v) => Some(v@),
        None => None,
    }
}

/// The model of an optional text.
pub open spec fn opt_text(o: Option<String>) -> Option<Seq<char>> {
    match o {
        Some(s) => Some(s@),
        None => None,
    }
}

proof fn lemma_member_skip(members: Seq<(Seq<char>, JsonView)>, i: int, key: Seq<char>)
    requires
        0 <= i < members.len(),
        members[i].0 != key,
    ensures
        member(members.skip(i), key) == member(members.skip(i + 1), key),
{
    assert(members.skip(i).drop_first() =~= members.skip(i + 1));
}

impl Json {
    /// The member `key` of an object (`Value::get`).
    pub fn get(&self, key: &str) -> (r: Option<&Json>)
        ensures
            opt_view(r) == self@.get(key@),
    {
        match self {
            Json::Object(members) => {
                let ghost ms = Self::view_members(members@);
                proof {
                    Self::lemma_view_members(members@);
                    assert(ms.skip(0) =~= ms);
                }
                let mut i: usize = 0;
                while i < members.len()
                    invariant
                        *self == Json::Object(*members),
                        i <= members@.len(),
                        ms == Self::view_members(members@),
                        ms.len() == members@.len(),
                        forall|k: int|
                            0 <= k < members@.len() ==> #[trigger] ms[k] == (
                                members@[k].0@,
                                members@[k].1.view_json(),
                            ),
                        member(ms, key@) == member(ms.skip(i as int), key@),
                    decreases members@.len() - i,
                {
                    if text_is(members[i].0.as_str(), key) {
                        assert(ms.skip(i as int)[0] == ms[i as int]);
                        return Some(&members[i].1);
                    }
                    proof {
                        lemma_member_skip(ms, i as int, key@);
                    }
                    i = i + 1;
                }
                assert(ms.skip(i as int).len() == 0);
                None
            },
            _ => None,
        }
    }

    /// The text of a JSON string (`Value::as_str`).
    pub fn as_str(&self) -> (r: Option<&String>)
        ensures
            match r {
                Some(s) => self@.as_str() == Some(s@),
                None => self@.as_str() is None,
            },
    {
        match self {
            Json::Str(s) => Some(s),
            _ => None,
        }
    }

    /// The value of a number that is a `u64` (`Value::as_u64`).
    pub fn as_u64(&self) -> (r: Option<u64>)
        ensures
            r == self@.as_u64(),
    {
        match self {
            Json::Number(n) => n.as_u64(),
            _ => None,
        }
    }

    /// The text at `key` (`get(key).and_then(as_str)`).
    pub fn str_at(&self, key: &str) -> (r: Option<&String>)
        ensures
            match r {
                Some(s) => self@.at(key@).as_str() == Some(s@),
                None => self@.at(key@).as_str() is None,
            },
    {
        match self.get(key) {
            Some(v) => v.as_str(),
            None => None,
        }
    }

    /// A JSON string holding `s`.
    pub fn string(s: &str) -> (r: Json)
        ensures
            r@ == JsonView::string(s@),
    {
        Json::Str(s.to_owned())
    }

    /// A JSON number holding `n`.
    pub fn unsigned(n: u64) -> (r: Json)
        ensures
            r@ == JsonView::unsigned(n),
    {
        Json::Number(JsonNumber::unsigned(n))
    }

    /// The empty JSON object.
    pub fn empty_object() -> (r: Json)
        ensures
            r@ == JsonView::empty_object(),
    {
        let members: Vec<(String, Json)> = Vec::new();
        let r = Json::Object(members);
        assert(Self::view_members(members@) =~= Seq::empty());
        r
    }

    /// A copy of this value.
    pub fn clone_json(&self) -> (r: Json)
        ensures
            r@ == self@,
        decreases self,
    {
        match self {
            Json::Null => Json::Null,
            Json::Bool(b) => Json::Bool(*b),
            Json::Number(n) => Json::Number(n.copy()),
            Json::Str(t) => Json::Str(t.clone()),
            Json::Array(items) => {
                let mut out: Vec<Json> = Vec::new();
                let mut i: usize = 0;
                while i < items.len()
                    invariant
                        *self == Json::Array(*items),
                        i <= items@.len(),
                        Json::view_items(out@) == Json::view_items(items@.take(i as int)),
                    decreases items@.len() - i,
                {
                    proof {
                        assert(decreases_to!(*self => (*self)->Array_0));
                        assert(decreases_to!(*items => items[i as int]));
                    }
                    let c = items[i].clone_json();
                    proof {
                        Json::lemma_view_items_push(out@, c);
                        Json::lemma_view_items_push(items@.take(i as int), items@[i as int]);
                        assert(items@.take(i as int).push(items@[i as int]) =~= items@.take(i + 1));
                    }
                    out.push(c);
                    i = i + 1;
                }
                assert(items@.take(i as int) =~= items@);
                Json::Array(out)
            },
            Json::Object(members) => {
                let mut out: Vec<(String, Json)> = Vec::new();
                let mut i: usize = 0;
                while i < members.len()
                    invariant
                        *self == Json::Object(*members),
                        i <= members@.len(),
                        Json::view_members(out@) == Json::view_members(members@.take(i as int)),
                    decreases members@.len() - i,
                {
                    proof {
                        assert(decreases_to!(*self => (*self)->Object_0));
                        assert(decreases_to!(*members => members[i as int]));
                        assert(decreases_to!(members[i as int] => members[i as int].1));
                    }
                    let c = (members[i].0.clone(), members[i].1.clone_json());
                    proof {
                        Json::lemma_view_members_push(out@, c);
                        Json::lemma_view_members_push(members@.take(i as int), members@[i as int]);
                        assert(members@.take(i as int).push(members@[i as int]) =~= members@.take(i + 1));
                    }
                    out.push(c);
                    i = i + 1;
                }
                assert(members@.take(i as int) =~= members@);
                Json::Object(out)
            },
        }
    }
}

}
