//! JSON documents as plain data.
//!
//! Reading and writing JSON text is the work of `serde_json`. This module
//! holds a document as a tree of the library's own, so that verified code
//! can look inside it, and names what `serde_json` reads and writes.

use crate::text::str_eq;
use vstd::prelude::*;

verus! {

#[verifier::external_type_specification]
#[verifier::external_body]
pub struct ExJsonNumber(serde_json::Number);

#[verifier::external_type_specification]
#[verifier::external_body]
pub struct ExJsonValue(serde_json::Value);

#[verifier::external_type_specification]
#[verifier::external_body]
pub struct ExJsonError(serde_json::Error);

/// A JSON document. The members of an object stand in the order in which
/// `serde_json` yields them; where a name occurs twice, the later member is
/// the one that counts. A number is carried as `serde_json` holds it.
#[derive(Debug, PartialEq)]
pub enum Json {
    Null,
    Bool(bool),
    Number(serde_json::Number),
    Text(String),
    Array(Vec<Json>),
    Object(Vec<(String, Json)>),
}

/// The mathematical value of a `Json`.
pub enum JsonModel {
    Null,
    Bool(bool),
    Number(serde_json::Number),
    Text(Seq<char>),
    Array(Seq<JsonModel>),
    Object(Seq<(Seq<char>, JsonModel)>),
}

/// Why a text could not be read, or a document not be written, as JSON.
#[derive(Debug, Clone, PartialEq, Eq)]
pub struct JsonError {
    /// What `serde_json` reported.
    pub message: String,
}

impl Json {
    /// The mathematical value of the document.
    pub open spec fn model(self) -> JsonModel
        decreases self,
    {
        match self {
            Json::Null => JsonModel::Null,
            Json::Bool(b) => JsonModel::Bool(b),
            Json::Number(n) => JsonModel::Number(n),
            Json::Text(s) => JsonModel::Text(s@),
            Json::Array(items) => JsonModel::Array(
                Seq::new(
                    items@.len(),
                    |i: int|
                        if 0 <= i < items@.len() {
                            items@[i].model()
                        } else {
                            JsonModel::Null
                        },
                ),
            ),
            Json::Object(members) => JsonModel::Object(
                Seq::new(
                    members@.len(),
                    |i: int|
                        if 0 <= i < members@.len() {
                            (members@[i].0@, members@[i].1.model())
                        } else {
                            (Seq::empty(), JsonModel::Null)
                        },
                ),
            ),
        }
    }
}

impl View for Json {
    type V = JsonModel;

    open spec fn view(&self) -> JsonModel {
        self.model()
    }
}

/// The views of a sequence of documents.
pub open spec fn item_views(items: Seq<Json>) -> Seq<JsonModel> {
    Seq::new(items.len(), |i: int| items[i]@)
}

/// The views of the members of an object.
pub open spec fn member_views(members: Seq<(String, Json)>) -> Seq<(Seq<char>, JsonModel)> {
    Seq::new(members.len(), |i: int| (members[i].0@, members[i].1@))
}

/// The value of the last member named `key`.
pub open spec fn lookup(members: Seq<(Seq<char>, JsonModel)>, key: Seq<char>) -> Option<JsonModel>
    decreases members.len(),
{
    if members.len() == 0 {
        None
    } else if members.last().0 == key {
        Some(members.last().1)
    } else {
        lookup(members.drop_last(), key)
    }
}

/// The place of the last member named `key`, or -1 where there is none.
pub open spec fn last_index(members: Seq<(Seq<char>, JsonModel)>, key: Seq<char>) -> int
    decreases members.len(),
{
    if members.len() == 0 {
        -1
    } else if members.last().0 == key {
        members.len() - 1
    } else {
        last_index(members.drop_last(), key)
    }
}

/// `lookup` finds the member at `last_index`.
pub proof fn lemma_lookup_at_last_index(members: Seq<(Seq<char>, JsonModel)>, key: Seq<char>)
    ensures
        -1 <= last_index(members, key) < members.len(),
        last_index(members, key) >= 0 ==> members[last_index(members, key)].0 == key && lookup(
            members,
            key,
        ) == Some(members[last_index(members, key)].1),
        last_index(members, key) < 0 ==> lookup(members, key) is None,
        forall|j: int| last_index(members, key) < j < members.len() ==> members[j].0 != key,
    decreases members.len(),
{
    if members.len() > 0 && members.last().0 != key {
        lemma_lookup_at_last_index(members.drop_last(), key);
        assert forall|j: int| last_index(members, key) < j < members.len() implies members[j].0
            != key by {
            if j < members.len() - 1 {
                assert(members.drop_last()[j] == members[j]);
            }
        }
    }
}

impl JsonModel {
    /// The member `key` of an object; nothing for any other document.
    pub open spec fn member(self, key: Seq<char>) -> Option<JsonModel> {
        match self {
            JsonModel::Object(members) => lookup(members, key),
            _ => None,
        }
    }

    /// The text of a string; nothing for any other document.
    pub open spec fn text(self) -> Option<Seq<char>> {
        match self {
            JsonModel::Text(s) => Some(s),
            _ => None,
        }
    }

    /// The items of an array; nothing for any other document.
    pub open spec fn items(self) -> Option<Seq<JsonModel>> {
        match self {
            JsonModel::Array(items) => Some(items),
            _ => None,
        }
    }

    /// The text of the member `key`, where it is a string.
    pub open spec fn member_text(self, key: Seq<char>) -> Option<Seq<char>> {
        match self.member(key) {
            Some(value) => value.text(),
            None => None,
        }
    }
}

/// The document that `serde_json` reads from `text`, if it reads one.
pub uninterp spec fn json_parse(text: Seq<char>) -> Option<JsonModel>;

/// The indented text that `serde_json` writes for `doc`, if it writes one.
pub uninterp spec fn json_pretty(doc: JsonModel) -> Option<Seq<char>>;

/// Turns a `serde_json::Value` into the `Json` of the same shape: variant
/// for variant, the members of an object in the order of its map.
#[verifier::external_body]
fn json_from_value(value: serde_json::Value) -> Json {
    match value {
        serde_json::Value::Null => Json::Null,
        serde_json::Value::Bool(b) => Json::Bool(b),
        serde_json::Value::Number(n) => Json::Number(n),
        serde_json::Value::String(s) => Json::Text(s),
        serde_json::Value::Array(items) => Json::Array(
            items.into_iter().map(json_from_value).collect(),
        ),
        serde_json::Value::Object(map) => Json::Object(
            map.into_iter().map(|(k, v)| (k, json_from_value(v))).collect(),
        ),
    }
}

/// Turns a `Json` into the `serde_json::Value` of the same shape. The
/// members of an object are collected into a map, where a later member
/// replaces an earlier one of the same name.
#[verifier::external_body]
fn value_from_json(doc: &Json) -> serde_json::Value {
    match doc {
        Json::Null => serde_json::Value::Null,
        Json::Bool(b) => serde_json::Value::Bool(*b),
        Json::Number(n) => serde_json::Value::Number(n.clone()),
        Json::Text(s) => serde_json::Value::String(s.clone()),
        Json::Array(items) => serde_json::Value::Array(
            items.iter().map(value_from_json).collect(),
        ),
        Json::Object(members) => serde_json::Value::Object(
            members.iter().map(|(k, v)| (k.clone(), value_from_json(v))).collect(),
        ),
    }
}

/// `serde_json::from_str` on a `serde_json::Value`: the result is the
/// document that `json_parse` names, or an error where it names none.
#[verifier::external_body]
fn read_json(text: &str) -> (r: Result<Json, serde_json::Error>)
    ensures
        match r {
            Ok(doc) => json_parse(text@) == Some(doc@),
            Err(_) => json_parse(text@) is None,
        },
{
    serde_json::from_str::<serde_json::Value>(text).map(json_from_value)
}

/// `serde_json::to_string_pretty` on the `serde_json::Value` of `doc`: the
/// result is the text that `json_pretty` names, or an error where it names
/// none.
#[verifier::external_body]
fn write_json_pretty(doc: &Json) -> (r: Result<String, serde_json::Error>)
    ensures
        match r {
            Ok(text) => json_pretty(doc@) == Some(text@),
            Err(_) => json_pretty(doc@) is None,
        },
{
    serde_json::to_string_pretty(&value_from_json(doc))
}

/// The message of a `serde_json::Error`, as its `Display` writes it.
#[verifier::external_body]
fn error_message(error: &serde_json::Error) -> String {
    error.to_string()
}

/// `Clone` of a `serde_json::Number`: the same number.
pub assume_specification[ <serde_json::Number as Clone>::clone ](
    n: &serde_json::Number,
) -> (r: serde_json::Number)
    ensures
        r == *n,
;

/// The view of an array is the array of the views of its items.
pub proof fn lemma_array_view(items: Vec<Json>)
    ensures
        Json::Array(items)@ == JsonModel::Array(item_views(items@)),
{
    assert(Json::Array(items)@->Array_0 =~= item_views(items@));
}

/// The view of an object holds the views of its members, in their order.
pub proof fn lemma_object_view(members: Vec<(String, Json)>)
    ensures
        Json::Object(members)@ == JsonModel::Object(member_views(members@)),
{
    assert(Json::Object(members)@->Object_0 =~= member_views(members@));
}

impl Json {
    /// Reads `text` as one JSON document.
    pub fn parse(text: &str) -> (r: Result<Json, JsonError>)
        ensures
            match r {
                Ok(doc) => json_parse(text@) == Some(doc@),
                Err(_) => json_parse(text@) is None,
            },
    {
        match read_json(text) {
            Ok(doc) => Ok(doc),
            Err(e) => Err(JsonError { message: error_message(&e) }),
        }
    }

    /// Writes the document as indented text.
    pub fn to_pretty_string(&self) -> (r: Result<String, JsonError>)
        ensures
            match r {
                Ok(text) => json_pretty(self@) == Some(text@),
                Err(_) => json_pretty(self@) is None,
            },
    {
        match write_json_pretty(self) {
            Ok(text) => Ok(text),
            Err(e) => Err(JsonError { message: error_message(&e) }),
        }
    }

    /// The member `key` of an object.
    pub fn get(&self, key: &str) -> (r: Option<&Json>)
        ensures
            match r {
                Some(value) => self@.member(key@) == Some(value@),
                None => self@.member(key@) is None,
            },
    {
        match self {
            Json::Object(members) => {
                let ghost all = member_views(members@);
                proof {
                    lemma_object_view(*members);
                }
                let mut i: usize = members.len();
                assert(all.take(i as int) == all);
                while i > 0
                    invariant
                        i <= members.len(),
                        all == member_views(members@),
                        self@ == JsonModel::Object(all),
                        lookup(all, key@) == lookup(all.take(i as int), key@),
                    decreases i,
                {
                    i -= 1;
                    assert(all.take(i + 1).drop_last() == all.take(i as int));
                    assert(all.take(i + 1).last() == all[i as int]);
                    if str_eq(members[i].0.as_str(), key) {
                        return Some(&members[i].1);
                    }
                }
                None
            },
            _ => None,
        }
    }

    /// The place of the last member named `key` among `members`.
    pub fn find_member(members: &Vec<(String, Json)>, key: &str) -> (r: Option<usize>)
        ensures
            match r {
                Some(i) => i == last_index(member_views(members@), key@),
                None => last_index(member_views(members@), key@) < 0,
            },
    {
        let ghost all = member_views(members@);
        let mut i: usize = members.len();
        assert(all.take(i as int) == all);
        while i > 0
            invariant
                i <= members.len(),
                all == member_views(members@),
                last_index(all, key@) == last_index(all.take(i as int), key@),
            decreases i,
        {
            i -= 1;
            assert(all.take(i + 1).drop_last() == all.take(i as int));
            assert(all.take(i + 1).last() == all[i as int]);
            if str_eq(members[i].0.as_str(), key) {
                return Some(i);
            }
        }
        None
    }

    /// The text of a string.
    pub fn as_text(&self) -> (r: Option<&str>)
        ensures
            match r {
                Some(s) => self@.text() == Some(s@),
                None => self@.text() is None,
            },
    {
        match self {
            Json::Text(s) => Some(s.as_str()),
            _ => None,
        }
    }

    /// The items of an array.
    pub fn as_array(&self) -> (r: Option<&Vec<Json>>)
        ensures
            match r {
                Some(items) => self@.items() == Some(item_views(items@)),
                None => self@.items() is None,
            },
    {
        match self {
            Json::Array(items) => {
                proof {
                    lemma_array_view(*items);
                }
                Some(items)
            },
            _ => None,
        }
    }

    /// The text of the member `key`, where it is a string.
    pub fn get_text(&self, key: &str) -> (r: Option<&str>)
        ensures
            match r {
                Some(s) => self@.member_text(key@) == Some(s@),
                None => self@.member_text(key@) is None,
            },
    {
        match self.get(key) {
            Some(value) => value.as_text(),
            None => None,
        }
    }

    /// A copy of the document.
    pub fn deep_copy(&self) -> (r: Json)
        ensures
            r@ == self@,
        decreases self,
    {
        match self {
            Json::Null => Json::Null,
            Json::Bool(b) => Json::Bool(*b),
            Json::Number(n) => Json::Number(n.clone()),
            Json::Text(s) => Json::Text(s.clone()),
            Json::Array(items) => {
                let mut out: Vec<Json> = Vec::new();
                let mut i: usize = 0;
                while i < items.len()
                    invariant
                        i <= items.len(),
                        out.len() == i,
                        *self == Json::Array(*items),
                        forall|j: int| 0 <= j < i ==> out@[j]@ == items@[j]@,
                    decreases items.len() - i,
                {
                    assert(self->Array_0 == *items);
                    let item = items[i].deep_copy();
                    out.push(item);
                    i += 1;
                }
                proof {
                    lemma_array_view(out);
                    lemma_array_view(*items);
                    assert(item_views(out@) =~= item_views(items@));
                }
                Json::Array(out)
            },
            Json::Object(members) => {
                let mut out: Vec<(String, Json)> = Vec::new();
                let mut i: usize = 0;
                while i < members.len()
                    invariant
                        i <= members.len(),
                        out.len() == i,
                        *self == Json::Object(*members),
                        forall|j: int|
                            0 <= j < i ==> out@[j].0@ == members@[j].0@ && out@[j].1@
                                == members@[j].1@,
                    decreases members.len() - i,
                {
                    let name = members[i].0.clone();
                    assert(self->Object_0 == *members);
                    let value = members[i].1.deep_copy();
                    out.push((name, value));
                    i += 1;
                }
                proof {
                    lemma_object_view(out);
                    lemma_object_view(*members);
                    assert(member_views(out@) =~= member_views(members@));
                }
                Json::Object(out)
            },
        }
    }
}

} // verus!
