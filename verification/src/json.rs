//! JSON documents.

use vstd::prelude::*;
use crate::text::same_text;
use crate::text_map::{
    distinct_keys, lemma_distinct_push, lemma_pairs_map_index, lemma_pairs_map_keys,
    lemma_pairs_map_remove, lemma_pairs_map_update, pairs_map, position,
};

verus! {

/// A JSON number: a non-negative integer, a negative integer, or the bits of
/// a double-precision float.
#[derive(Clone, Copy, Debug, PartialEq, Eq, Structural)]
pub enum JsonNumber {
    PosInt(u64),
    NegInt(i64),
    Float(u64),
}

/// A JSON document.
pub enum JsonValue {
    Null,
    Bool(bool),
    Number(JsonNumber),
    Text(String),
    Array(Vec<JsonValue>),
    Object(JsonObject),
}

/// The members of a JSON object.
pub struct JsonObject {
    entries: Vec<(String, JsonValue)>,
}

/// What a JSON document means: objects are maps, whatever the order of their members.
pub enum Json {
    Null,
    Bool(bool),
    Number(JsonNumber),
    Text(Seq<char>),
    Array(Seq<Json>),
    Object(Map<Seq<char>, Json>),
}

impl JsonValue {
    pub open spec fn view(&self) -> Json
        decreases self,
    {
        match self {
            JsonValue::Null => Json::Null,
            JsonValue::Bool(b) => Json::Bool(*b),
            JsonValue::Number(n) => Json::Number(*n),
            JsonValue::Text(t) => Json::Text(t@),
            JsonValue::Array(items) => Json::Array(json_items(items@)),
            JsonValue::Object(members) => Json::Object(members.view()),
        }
    }
}

impl JsonObject {
    pub closed spec fn view(&self) -> Map<Seq<char>, Json>
        decreases self,
    {
        pairs_map(json_pairs(self.entries@))
    }
}

/// What each document of a list means.
pub open spec fn json_items(items: Seq<JsonValue>) -> Seq<Json>
    decreases items,
{
    if items.len() == 0 {
        Seq::empty()
    } else {
        json_items(items.drop_last()).push(items.last().view())
    }
}

/// What each member of a list of members means.
pub open spec fn json_pairs(entries: Seq<(String, JsonValue)>) -> Seq<(Seq<char>, Json)>
    decreases entries,
{
    if entries.len() == 0 {
        Seq::empty()
    } else {
        json_pairs(entries.drop_last()).push((entries.last().0@, entries.last().1.view()))
    }
}

pub proof fn lemma_json_items(items: Seq<JsonValue>)
    ensures
        json_items(items) == Seq::new(items.len(), |i: int| items[i].view()),
    decreases items.len(),
{
    if items.len() > 0 {
        lemma_json_items(items.drop_last());
        assert(json_items(items) =~= Seq::new(items.len(), |i: int| items[i].view()));
    }
}

pub proof fn lemma_json_pairs(entries: Seq<(String, JsonValue)>)
    ensures
        json_pairs(entries) == Seq::new(
            entries.len(),
            |i: int| (entries[i].0@, entries[i].1.view()),
        ),
    decreases entries.len(),
{
    if entries.len() > 0 {
        lemma_json_pairs(entries.drop_last());
        assert(json_pairs(entries) =~= Seq::new(
            entries.len(),
            |i: int| (entries[i].0@, entries[i].1.view()),
        ));
    }
}

/// The members of an object; anything else has none.
pub open spec fn members(document: Json) -> Map<Seq<char>, Json> {
    match document {
        Json::Object(members) => members,
        _ => Map::empty(),
    }
}

/// The member `key` of an object, or `Null` where there is none.
pub open spec fn member(document: Json, key: Seq<char>) -> Json {
    if members(document).contains_key(key) {
        members(document)[key]
    } else {
        Json::Null
    }
}

impl JsonObject {
    #[verifier::type_invariant]
    spec fn keys_are_distinct(self) -> bool {
        distinct_keys(json_pairs(self.entries@))
    }

    /// The object without members.
    pub fn new() -> (object: Self)
        ensures
            object@ == Map::<Seq<char>, Json>::empty(),
    {
        JsonObject { entries: Vec::new() }
    }

    /// Sets the member `key`, whether or not the object had it.
    pub fn insert(&mut self, key: String, value: JsonValue)
        ensures
            final(self)@ == old(self)@.insert(key@, value@),
    {
        proof {
            use_type_invariant(&*self);
        }
        let mut entries: Vec<(String, JsonValue)> = Vec::new();
        std::mem::swap(&mut entries, &mut self.entries);
        let ghost before = json_pairs(entries@);
        proof {
            lemma_json_pairs(entries@);
        }
        match position(&entries, key.as_str()) {
            Some(i) => {
                proof {
                    assert(before[i as int].0 == key@);
                    lemma_pairs_map_update(before, i as int, value@);
                    lemma_json_pairs(entries@.update(i as int, (key, value)));
                    assert(json_pairs(entries@.update(i as int, (key, value))) =~= before.update(
                        i as int,
                        (key@, value@),
                    ));
                }
                entries.set(i, (key, value));
            },
            None => {
                proof {
                    assert forall|j: int| 0 <= j < before.len() implies (#[trigger] before[j]).0
                        != key@ by {
                        assert(entries@[j].0@ != key@);
                    }
                    lemma_distinct_push(before, key@, value@);
                    lemma_json_pairs(entries@.push((key, value)));
                    assert(json_pairs(entries@.push((key, value))) =~= before.push((key@, value@)));
                }
                entries.push((key, value));
            },
        }
        self.entries = entries;
    }

    /// The member `key`.
    pub fn get(&self, key: &str) -> (r: Option<&JsonValue>)
        ensures
            r is Some <==> self@.contains_key(key@),
            r matches Some(value) ==> value@ == self@[key@],
    {
        proof {
            use_type_invariant(&*self);
            lemma_json_pairs(self.entries@);
            lemma_pairs_map_keys(json_pairs(self.entries@), key@);
        }
        match position(&self.entries, key) {
            Some(i) => {
                proof {
                    lemma_pairs_map_index(json_pairs(self.entries@), i as int);
                    assert(json_pairs(self.entries@)[i as int].0 == key@);
                }
                Some(&self.entries[i].1)
            },
            None => {
                proof {
                    if self@.contains_key(key@) {
                        let pairs = json_pairs(self.entries@);
                        let j = choose|j: int|
                            0 <= j < pairs.len() && (#[trigger] pairs[j]).0 == key@;
                        assert(self.entries@[j].0@ != key@);
                    }
                }
                None
            },
        }
    }

    /// Takes the member `key` out of the object.
    pub fn remove(&mut self, key: &str) -> (r: Option<JsonValue>)
        ensures
            final(self)@ == old(self)@.remove(key@),
            r is Some <==> old(self)@.contains_key(key@),
            r matches Some(value) ==> value@ == old(self)@[key@],
    {
        proof {
            use_type_invariant(&*self);
        }
        let mut entries: Vec<(String, JsonValue)> = Vec::new();
        std::mem::swap(&mut entries, &mut self.entries);
        let ghost before = json_pairs(entries@);
        proof {
            lemma_json_pairs(entries@);
            lemma_pairs_map_keys(before, key@);
        }
        let removed: Option<JsonValue> = match position(&entries, key) {
            Some(i) => {
                proof {
                    assert(before[i as int].0 == key@);
                    lemma_pairs_map_index(before, i as int);
                    lemma_pairs_map_remove(before, i as int);
                    lemma_json_pairs(entries@.remove(i as int));
                    assert(json_pairs(entries@.remove(i as int)) =~= before.remove(i as int));
                }
                let (_, value) = entries.remove(i);
                Some(value)
            },
            None => {
                proof {
                    if pairs_map(before).contains_key(key@) {
                        let j = choose|j: int|
                            0 <= j < before.len() && (#[trigger] before[j]).0 == key@;
                        assert(entries@[j].0@ != key@);
                    }
                    assert(pairs_map(before).remove(key@) =~= pairs_map(before));
                }
                None
            },
        };
        self.entries = entries;
        removed
    }

    /// The object that a list of members describes; of two members with one key the later counts.
    pub fn from_entries(entries: Vec<(String, JsonValue)>) -> (object: Self)
        ensures
            object@ == pairs_map(json_pairs(entries@)),
    {
        let ghost pairs = json_pairs(entries@);
        let mut object: JsonObject = JsonObject::new();
        let mut rest: Vec<(String, JsonValue)> = entries;
        let ghost mut done: int = 0;
        assert(pairs.take(0) == Seq::<(Seq<char>, Json)>::empty());
        assert(pairs.skip(0) == pairs);
        while rest.len() > 0
            invariant
                0 <= done <= pairs.len(),
                json_pairs(rest@) == pairs.skip(done),
                object@ == pairs_map(pairs.take(done)),
            decreases rest@.len(),
        {
            let ghost before = rest@;
            let (key, value) = rest.remove(0);
            proof {
                lemma_json_pairs(before);
                lemma_json_pairs(rest@);
                assert(json_pairs(before).len() == before.len());
                assert(pairs.skip(done)[0] == pairs[done]);
                assert(json_pairs(before)[0] == pairs[done]);
                assert(pairs.take(done + 1).drop_last() == pairs.take(done));
                assert(json_pairs(rest@) =~= json_pairs(before).skip(1));
                assert(pairs.skip(done).skip(1) == pairs.skip(done + 1));
                done = done + 1;
            }
            object.insert(key, value);
        }
        proof {
            lemma_json_pairs(rest@);
            assert(pairs.take(done) == pairs);
        }
        object
    }

    /// The members of the object, each key once.
    pub fn into_entries(self) -> (entries: Vec<(String, JsonValue)>)
        ensures
            distinct_keys(json_pairs(entries@)),
            pairs_map(json_pairs(entries@)) == self@,
    {
        proof {
            use_type_invariant(&self);
        }
        self.entries
    }
}

impl JsonValue {
    /// The text of a JSON string.
    pub fn as_str(&self) -> (r: Option<&str>)
        ensures
            r matches Some(text) ==> self@ == Json::Text(text@),
            r is None ==> !(self@ is Text),
    {
        match self {
            JsonValue::Text(text) => Some(text.as_str()),
            _ => None,
        }
    }

    /// Whether this is the JSON string `text`.
    pub fn is_text(&self, text: &str) -> (r: bool)
        ensures
            r == (self@ == Json::Text(text@)),
    {
        match self {
            JsonValue::Text(own) => same_text(own.as_str(), text),
            _ => false,
        }
    }

    /// The member `key` of a JSON object.
    pub fn get(&self, key: &str) -> (r: Option<&JsonValue>)
        ensures
            r is Some <==> members(self@).contains_key(key@),
            r matches Some(value) ==> value@ == members(self@)[key@],
    {
        match self {
            JsonValue::Object(object) => object.get(key),
            _ => None,
        }
    }

    /// The document that holds an integer.
    pub fn integer(value: i64) -> (r: JsonValue)
        ensures
            r@ == json_integer(value as int),
    {
        if value >= 0 {
            JsonValue::Number(JsonNumber::PosInt(value as u64))
        } else {
            JsonValue::Number(JsonNumber::NegInt(value))
        }
    }
}

/// The JSON document of an integer of 64 bits.
pub open spec fn json_integer(value: int) -> Json {
    if value >= 0 {
        Json::Number(JsonNumber::PosInt(value as u64))
    } else {
        Json::Number(JsonNumber::NegInt(value as i64))
    }
}

/// Objects have the members that they are made of and nothing else; what is no
/// object has none.
pub proof fn law_members(all: Map<Seq<char>, Json>, document: Json, key: Seq<char>)
    ensures
        members(Json::Object(all)) == all,
        all.contains_key(key) ==> member(Json::Object(all), key) == all[key],
        !all.contains_key(key) ==> member(Json::Object(all), key) == Json::Null,
        !(document is Object) ==> !members(document).contains_key(key),
        !(document is Object) ==> member(document, key) == Json::Null,
{
}

/// A document means what it holds: truth values, numbers and texts as they
/// are, lists item by item, objects member by member.
pub proof fn law_meaning(value: JsonValue)
    ensures
        value is Null ==> value.view() == Json::Null,
        value matches JsonValue::Bool(b) ==> value.view() == Json::Bool(b),
        value matches JsonValue::Number(n) ==> value.view() == Json::Number(n),
        value matches JsonValue::Text(text) ==> value.view() == Json::Text(text@),
        value matches JsonValue::Array(items) ==> value.view() is Array
            && value.view()->Array_0.len() == items@.len() && forall|i: int|
            0 <= i < items@.len() ==> #[trigger] value.view()->Array_0[i] == items@[i].view(),
        value matches JsonValue::Object(object) ==> value.view() == Json::Object(object.view()),
{
    if value is Array {
        lemma_json_items(value->Array_0@);
    }
}

/// An integer is written as it is, a negative one with its sign.
pub proof fn law_json_integer(value: i64)
    ensures
        value >= 0 ==> (json_integer(value as int) matches Json::Number(JsonNumber::PosInt(n)) && n
            == value),
        value < 0 ==> json_integer(value as int) == Json::Number(JsonNumber::NegInt(value)),
{
}

} // verus!
