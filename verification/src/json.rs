//! JSON values, as the Memos API takes and gives them.

use vstd::prelude::*;

use crate::text::{same, texts};

verus! {

/// A JSON value. A number is kept as its text; an object is a list of members,
/// of which the first with a given name counts.
#[derive(Debug, PartialEq, Eq)]
pub enum Json {
    Null,
    Bool(bool),
    Number(String),
    Text(String),
    Array(Vec<Json>),
    Object(Vec<(String, Json)>),
}

/// The mathematical value of a [`Json`].
pub ghost enum JsonValue {
    Null,
    Bool(bool),
    Number(Seq<char>),
    Text(Seq<char>),
    Array(Seq<JsonValue>),
    Object(Seq<(Seq<char>, JsonValue)>),
}

impl View for Json {
    type V = JsonValue;

    open spec fn view(&self) -> JsonValue
        decreases self,
    {
        match self {
            Json::Null => JsonValue::Null,
            Json::Bool(b) => JsonValue::Bool(*b),
            Json::Number(s) => JsonValue::Number(s@),
            Json::Text(s) => JsonValue::Text(s@),
            Json::Array(v) => JsonValue::Array(
                Seq::new(
                    v@.len(),
                    |i: int|
                        if 0 <= i < v@.len() {
                            v@[i].view()
                        } else {
                            JsonValue::Null
                        },
                ),
            ),
            Json::Object(v) => JsonValue::Object(
                Seq::<(Seq<char>, JsonValue)>::new(
                    v@.len(),
                    |i: int|
                        (
                            v@[i].0@,
                            if 0 <= i < v@.len() {
                                v@[i].1.view()
                            } else {
                                JsonValue::Null
                            },
                        ),
                ),
            ),
        }
    }
}

/// The values of a list of JSON values.
pub open spec fn items(v: Seq<Json>) -> Seq<JsonValue> {
    v.map_values(|j: Json| j@)
}

/// The values of a list of object members.
pub open spec fn members(v: Seq<(String, Json)>) -> Seq<(Seq<char>, JsonValue)> {
    v.map_values(|e: (String, Json)| (e.0@, e.1@))
}

/// An array's value is made of its items' values.
pub proof fn lemma_array_view(v: Vec<Json>)
    ensures
        Json::Array(v)@ == JsonValue::Array(items(v@)),
{
    let j = Json::Array(v)@;
    assert(j->Array_0 =~= items(v@));
}

/// An object's value is made of its members' values.
pub proof fn lemma_object_view(v: Vec<(String, Json)>)
    ensures
        Json::Object(v)@ == JsonValue::Object(members(v@)),
{
    let j = Json::Object(v)@;
    assert(j->Object_0 =~= members(v@));
}

/// The value of the first member with the given name.
pub open spec fn lookup(entries: Seq<(Seq<char>, JsonValue)>, key: Seq<char>) -> Option<JsonValue>
    decreases entries.len(),
{
    if entries.len() == 0 {
        None
    } else if entries[0].0 == key {
        Some(entries[0].1)
    } else {
        lookup(entries.drop_first(), key)
    }
}

impl JsonValue {
    /// The member of an object with the given name.
    pub open spec fn get(self, key: Seq<char>) -> Option<JsonValue> {
        match self {
            JsonValue::Object(entries) => lookup(entries, key),
            _ => None,
        }
    }

    /// The text of a text value.
    pub open spec fn as_text(self) -> Option<Seq<char>> {
        match self {
            JsonValue::Text(s) => Some(s),
            _ => None,
        }
    }

    /// The member with the given name where it is a text.
    pub open spec fn text_at(self, key: Seq<char>) -> Option<Seq<char>> {
        match self.get(key) {
            Some(v) => v.as_text(),
            None => None,
        }
    }

    /// The member with the given name where it is a text, else the empty text.
    pub open spec fn text_or_empty(self, key: Seq<char>) -> Seq<char> {
        match self.text_at(key) {
            Some(s) => s,
            None => seq![],
        }
    }

    /// Is the member with the given name the value `true`?
    pub open spec fn flag(self, key: Seq<char>) -> bool {
        self.get(key) == Some(JsonValue::Bool(true))
    }

    /// The items of the member with the given name where it is an array, else
    /// no items.
    pub open spec fn array_at(self, key: Seq<char>) -> Seq<JsonValue> {
        match self.get(key) {
            Some(JsonValue::Array(s)) => s,
            _ => seq![],
        }
    }
}

/// The texts among some values, in order.
pub open spec fn only_texts(values: Seq<JsonValue>) -> Seq<Seq<char>>
    decreases values.len(),
{
    if values.len() == 0 {
        seq![]
    } else {
        match values.last().as_text() {
            Some(s) => only_texts(values.drop_last()).push(s),
            None => only_texts(values.drop_last()),
        }
    }
}

impl Json {
    /// The member of an object with the given name.
    pub fn get(&self, key: &str) -> (r: Option<&Json>)
        ensures
            r is Some == self@.get(key@) is Some,
            r matches Some(j) ==> self@.get(key@) == Some(j@),
    {
        match self {
            Json::Object(v) => {
                proof {
                    lemma_object_view(*v);
                }
                let ghost all = members(v@);
                let mut i: usize = 0;
                assert(all.skip(0) =~= all);
                while i < v.len()
                    invariant
                        i <= v@.len(),
                        all == members(v@),
                        self@ == JsonValue::Object(all),
                        lookup(all, key@) == lookup(all.skip(i as int), key@),
                    decreases v@.len() - i,
                {
                    if same(v[i].0.as_str(), key) {
                        return Some(&v[i].1);
                    }
                    assert(all.skip(i as int).drop_first() =~= all.skip(i + 1));
                    i = i + 1;
                }
                None
            },
            _ => None,
        }
    }

    /// The text of a text value.
    pub fn as_str(&self) -> (r: Option<&str>)
        ensures
            r is Some == self@.as_text() is Some,
            r matches Some(s) ==> self@.as_text() == Some(s@),
    {
        match self {
            Json::Text(s) => Some(s.as_str()),
            _ => None,
        }
    }

    /// The member with the given name where it is a text.
    pub fn text_at(&self, key: &str) -> (r: Option<&str>)
        ensures
            r is Some == self@.text_at(key@) is Some,
            r matches Some(s) ==> self@.text_at(key@) == Some(s@),
    {
        match self.get(key) {
            Some(v) => v.as_str(),
            None => None,
        }
    }

    /// The member with the given name where it is a text, else the empty text.
    pub fn text_or_empty(&self, key: &str) -> (r: String)
        ensures
            r@ == self@.text_or_empty(key@),
    {
        match self.text_at(key) {
            Some(s) => s.to_owned(),
            None => String::new(),
        }
    }

    /// Is the member with the given name the value `true`?
    pub fn flag(&self, key: &str) -> (r: bool)
        ensures
            r == self@.flag(key@),
    {
        match self.get(key) {
            Some(Json::Bool(b)) => *b,
            _ => false,
        }
    }

    /// The texts among the items of the member with the given name.
    pub fn texts_at(&self, key: &str) -> (r: Vec<String>)
        ensures
            texts(r@) == only_texts(self@.array_at(key@)),
    {
        let mut out: Vec<String> = Vec::new();
        assert(texts(out@) =~= seq![]);
        match self.get(key) {
            Some(Json::Array(v)) => {
                proof {
                    lemma_array_view(*v);
                }
                let ghost all = items(v@);
                let mut i: usize = 0;
                assert(only_texts(all.take(0)) =~= seq![]);
                while i < v.len()
                    invariant
                        i <= v@.len(),
                        all == items(v@),
                        texts(out@) == only_texts(all.take(i as int)),
                    decreases v@.len() - i,
                {
                    let ghost had = texts(out@);
                    assert(all.take(i + 1).drop_last() =~= all.take(i as int));
                    assert(all.take(i + 1).last() == v@[i as int]@);
                    if let Some(s) = v[i].as_str() {
                        out.push(s.to_owned());
                        assert(texts(out@) =~= had.push(s@));
                    }
                    i = i + 1;
                }
                assert(all.take(i as int) =~= all);
            },
            _ => {},
        }
        out
    }

    /// The items of the member with the given name, taken out of the object.
    pub fn take_array(self, key: &str) -> (r: Vec<Json>)
        ensures
            items(r@) == self@.array_at(key@),
    {
        let mut rest: Vec<(String, Json)> = match self {
            Json::Object(v) => {
                proof {
                    lemma_object_view(v);
                }
                v
            },
            _ => {
                let empty: Vec<Json> = Vec::new();
                assert(items(empty@) =~= seq![]);
                return empty;
            },
        };
        let ghost all = members(rest@);
        let mut i: usize = 0;
        assert(all.skip(0) =~= all);
        while i < rest.len()
            invariant
                i <= rest@.len(),
                all == members(rest@),
                self@ == JsonValue::Object(all),
                lookup(all, key@) == lookup(all.skip(i as int), key@),
            decreases rest@.len() - i,
        {
            if same(rest[i].0.as_str(), key) {
                let ghost found = rest@[i as int].1@;
                assert(lookup(all.skip(i as int), key@) == Some(found));
                let value = rest.swap_remove(i).1;
                assert(value@ == found);
                match value {
                    Json::Array(v) => {
                        proof {
                            lemma_array_view(v);
                        }
                        return v;
                    },
                    _ => {
                        let empty: Vec<Json> = Vec::new();
                        assert(items(empty@) =~= seq![]);
                        return empty;
                    },
                }
            }
            assert(all.skip(i as int).drop_first() =~= all.skip(i + 1));
            i = i + 1;
        }
        let empty: Vec<Json> = Vec::new();
        assert(items(empty@) =~= seq![]);
        empty
    }

    /// Is this the null value?
    pub fn is_null(&self) -> (r: bool)
        ensures
            r == (self@ == JsonValue::Null),
    {
        match self {
            Json::Null => true,
            _ => false,
        }
    }

    /// A text value.
    pub fn text(s: &str) -> (r: Json)
        ensures
            r@ == JsonValue::Text(s@),
    {
        Json::Text(s.to_owned())
    }

    /// The object with the given members.
    pub fn object(v: Vec<(String, Json)>) -> (r: Json)
        ensures
            r@ == JsonValue::Object(members(v@)),
    {
        proof {
            lemma_object_view(v);
        }
        Json::Object(v)
    }

    /// The array with the given items.
    pub fn array(v: Vec<Json>) -> (r: Json)
        ensures
            r@ == JsonValue::Array(items(v@)),
    {
        proof {
            lemma_array_view(v);
        }
        Json::Array(v)
    }
}

/// Adds a member to an object that is being built.
pub fn put(entries: &mut Vec<(String, Json)>, key: &str, value: Json)
    ensures
        members(final(entries)@) == members(old(entries)@).push((key@, value@)),
{
    entries.push((key.to_owned(), value));
    assert(members(entries@) =~= members(old(entries)@).push((key@, value@)));
}

/// Adds a member that is a text to an object that is being built.
pub fn put_text(entries: &mut Vec<(String, Json)>, key: &str, value: &str)
    ensures
        members(final(entries)@) == members(old(entries)@).push((key@, JsonValue::Text(value@))),
{
    put(entries, key, Json::text(value));
}

/// No members.
pub fn no_members() -> (r: Vec<(String, Json)>)
    ensures
        members(r@) == Seq::<(Seq<char>, JsonValue)>::empty(),
{
    let v: Vec<(String, Json)> = Vec::new();
    assert(members(v@) =~= Seq::<(Seq<char>, JsonValue)>::empty());
    v
}

// ---------- laws ----------

/// The texts among the values of two lists are those of the one, and then those of
/// the other; a single value gives itself where it is a text, and nothing else.
pub proof fn texts_of_joined_lists(a: Seq<JsonValue>, b: Seq<JsonValue>, value: JsonValue)
    ensures
        only_texts(a + b) == only_texts(a) + only_texts(b),
        only_texts(seq![value]) == match value {
            JsonValue::Text(s) => seq![s],
            _ => seq![],
        },
    decreases b.len(),
{
    assert(seq![value].drop_last() =~= seq![]);
    assert(only_texts(Seq::<JsonValue>::empty()) =~= seq![]);
    assert(only_texts(seq![value]) =~= match value {
        JsonValue::Text(s) => seq![s],
        _ => seq![],
    });
    if b.len() == 0 {
        assert(a + b =~= a);
        assert(only_texts(a) + only_texts(b) =~= only_texts(a));
    } else {
        texts_of_joined_lists(a, b.drop_last(), value);
        assert((a + b).drop_last() =~= a + b.drop_last());
        assert((a + b).last() == b.last());
        assert(only_texts(a + b) =~= only_texts(a) + only_texts(b));
    }
}

/// Every text among some values is kept.
pub proof fn texts_are_kept(values: Seq<JsonValue>, k: int)
    requires
        0 <= k < values.len(),
        values[k] is Text,
    ensures
        only_texts(values).contains(values[k]->Text_0),
{
    let front = values.take(k);
    let one = seq![values[k]];
    let back = values.skip(k + 1);
    assert(values =~= front + one + back);
    texts_of_joined_lists(front, one, values[k]);
    texts_of_joined_lists(front + one, back, values[k]);
    let n = only_texts(front).len() as int;
    assert(only_texts(values)[n] == values[k]->Text_0);
}

/// A member is found by its name exactly where it is the first with that name.
pub proof fn members_are_found_by_name(
    entries: Seq<(Seq<char>, JsonValue)>,
    key: Seq<char>,
    value: JsonValue,
)
    ensures
        JsonValue::Object(entries).get(key) == Some(value) <==> exists|i: int|
            0 <= i < entries.len() && #[trigger] entries[i] == (key, value) && forall|j: int|
                0 <= j < i ==> (#[trigger] entries[j]).0 != key,
    decreases entries.len(),
{
    if entries.len() > 0 {
        let rest = entries.drop_first();
        members_are_found_by_name(rest, key, value);
        if entries[0].0 != key {
            if exists|i: int|
                0 <= i < rest.len() && #[trigger] rest[i] == (key, value) && forall|j: int|
                    0 <= j < i ==> (#[trigger] rest[j]).0 != key {
                let i = choose|i: int|
                    0 <= i < rest.len() && #[trigger] rest[i] == (key, value) && forall|j: int|
                        0 <= j < i ==> (#[trigger] rest[j]).0 != key;
                assert(entries[i + 1] == (key, value));
                assert forall|j: int| 0 <= j < i + 1 implies (#[trigger] entries[j]).0 != key by {
                    if j > 0 {
                        assert(rest[j - 1].0 != key);
                    }
                }
            }
            if exists|i: int|
                0 <= i < entries.len() && #[trigger] entries[i] == (key, value) && forall|j: int|
                    0 <= j < i ==> (#[trigger] entries[j]).0 != key {
                let i = choose|i: int|
                    0 <= i < entries.len() && #[trigger] entries[i] == (key, value) && forall|
                        j: int,
                    |
                        0 <= j < i ==> (#[trigger] entries[j]).0 != key;
                assert(rest[i - 1] == (key, value));
                assert forall|j: int| 0 <= j < i - 1 implies (#[trigger] rest[j]).0 != key by {
                    assert(entries[j + 1].0 != key);
                }
            }
        } else {
            assert(entries[0] == (key, entries[0].1));
            if entries[0].1 == value {
                assert(entries[0] == (key, value));
            }
            assert forall|i: int|
                0 <= i < entries.len() && #[trigger] entries[i] == (key, value) && (forall|j: int|
                    0 <= j < i ==> (#[trigger] entries[j]).0 != key) implies i == 0 by {
                if i > 0 {
                    assert(entries[0].0 != key);
                }
            }
        }
    }
}

/// What is read of a member by its name is the member: a text as that text, a list as
/// that list, a truth value as that value; and nothing of another kind.
pub proof fn members_are_read_as_they_are(value: JsonValue, key: Seq<char>)
    ensures
        value.get(key) matches Some(JsonValue::Text(s)) ==> value.text_at(key) == Some(s)
            && value.text_or_empty(key) == s,
        !(value.get(key) matches Some(JsonValue::Text(_))) ==> value.text_at(key) is None
            && value.text_or_empty(key).len() == 0,
        value.get(key) matches Some(JsonValue::Array(list)) ==> value.array_at(key) == list,
        !(value.get(key) matches Some(JsonValue::Array(_))) ==> value.array_at(key).len() == 0,
        value.flag(key) <==> (value.get(key) matches Some(JsonValue::Bool(b)) && b),
        !(value is Object) ==> value.get(key) is None,
{
}

} // verus!
