//! A JSON document as a tree of values, its mathematical model, and the
//! passage between such a tree and JSON text.

use vstd::prelude::*;
use crate::text::same_key;
use usiem::serde_json::Value;

verus! {

/// One JSON value. A number is held as a literal: one read from text as
/// serde_json writes the number again, so that `2.50` is held as `2.5`. An
/// object keeps its members in document order.
#[derive(Debug)]
pub enum Json {
    Null,
    Bool(bool),
    Number(String),
    Text(String),
    Array(Vec<Json>),
    Object(Vec<(String, Json)>),
}

/// The mathematical value of a [`Json`] tree.
pub enum JsonModel {
    Null,
    Bool(bool),
    Number(Seq<char>),
    Text(Seq<char>),
    Array(Seq<JsonModel>),
    Object(Seq<(Seq<char>, JsonModel)>),
}

impl View for Json {
    type V = JsonModel;

    open spec fn view(&self) -> JsonModel {
        self.model()
    }
}

impl Json {
    /// The mathematical value of this tree.
    pub open spec fn model(&self) -> JsonModel
        decreases self,
    {
        match self {
            Json::Null => JsonModel::Null,
            Json::Bool(b) => JsonModel::Bool(*b),
            Json::Number(literal) => JsonModel::Number(literal@),
            Json::Text(s) => JsonModel::Text(s@),
            Json::Array(items) => JsonModel::Array(
                Seq::new(
                    items@.len(),
                    |i: int|
                        if 0 <= i < items@.len() {
                            items@[i].model()
                        } else {
                            JsonModel::Null
                        },
                ),
            ),
            Json::Object(members) => JsonModel::Object(
                Seq::new(
                    members@.len(),
                    |i: int|
                        if 0 <= i < members@.len() {
                            (members@[i].0@, members@[i].1.model())
                        } else {
                            (Seq::empty(), JsonModel::Null)
                        },
                ),
            ),
        }
    }
}

/// The models of a list of values.
pub open spec fn items_view(items: Seq<Json>) -> Seq<JsonModel> {
    Seq::new(items.len(), |i: int| items[i]@)
}

/// The models of a list of members.
pub open spec fn members_view(members: Seq<(String, Json)>) -> Seq<(Seq<char>, JsonModel)> {
    Seq::new(members.len(), |i: int| (members[i].0@, members[i].1@))
}

/// The value of the last member named `key`, if there is one. Where a name is
/// written twice in an object, the later member is the one that counts.
pub open spec fn lookup(members: Seq<(Seq<char>, JsonModel)>, key: Seq<char>) -> Option<JsonModel>
    decreases members.len(),
{
    if members.len() == 0 {
        None
    } else if members.last().0 == key {
        Some(members.last().1)
    } else {
        lookup(members.drop_last(), key)
    }
}

impl JsonModel {
    /// The value of the member `key`, if this is an object that has one.
    pub open spec fn field(self, key: Seq<char>) -> Option<JsonModel> {
        match self {
            JsonModel::Object(members) => lookup(members, key),
            _ => None,
        }
    }

    /// This is an object with a member named `key`.
    pub open spec fn has_key(self, key: Seq<char>) -> bool {
        self.field(key) is Some
    }
}

/// A member that is looked up after it was appended is found.
pub broadcast proof fn lemma_lookup_push(
    members: Seq<(Seq<char>, JsonModel)>,
    member: (Seq<char>, JsonModel),
    key: Seq<char>,
)
    ensures
        #[trigger] lookup(members.push(member), key) == if member.0 == key {
            Some(member.1)
        } else {
            lookup(members, key)
        },
{
    assert(members.push(member).drop_last() =~= members);
}

impl Json {
    /// The text value `text`.
    pub fn text(text: &str) -> (json: Json)
        ensures
            json@ == JsonModel::Text(text@),
    {
        Json::Text(text.to_owned())
    }

    /// The array of `items`.
    pub fn array(items: Vec<Json>) -> (json: Json)
        ensures
            json@ == JsonModel::Array(items_view(items@)),
    {
        let json = Json::Array(items);
        assert(json@->Array_0 =~= items_view(items@));
        json
    }

    /// The object of `members`.
    pub fn object(members: Vec<(String, Json)>) -> (json: Json)
        ensures
            json@ == JsonModel::Object(members_view(members@)),
    {
        let json = Json::Object(members);
        assert(json@->Object_0 =~= members_view(members@));
        json
    }

    /// The items, if this is an array.
    pub fn as_array(&self) -> (items: Option<&Vec<Json>>)
        ensures
            match items {
                Some(list) => self@ == JsonModel::Array(items_view(list@)),
                None => !(self@ is Array),
            },
    {
        match self {
            Json::Array(items) => {
                assert(self@->Array_0 =~= items_view(items@));
                Some(items)
            },
            _ => None,
        }
    }

    /// The members, if this is an object.
    pub fn as_object(&self) -> (members: Option<&Vec<(String, Json)>>)
        ensures
            match members {
                Some(list) => self@ == JsonModel::Object(members_view(list@)),
                None => !(self@ is Object),
            },
    {
        match self {
            Json::Object(members) => {
                assert(self@->Object_0 =~= members_view(members@));
                Some(members)
            },
            _ => None,
        }
    }

    /// The characters, if this is a text value.
    pub fn as_text(&self) -> (text: Option<&String>)
        ensures
            match text {
                Some(s) => self@ == JsonModel::Text(s@),
                None => !(self@ is Text),
            },
    {
        match self {
            Json::Text(s) => Some(s),
            _ => None,
        }
    }

    /// A second tree with the same value.
    pub fn copy(&self) -> (json: Json)
        ensures
            json@ == self@,
        decreases self,
    {
        match self {
            Json::Null => Json::Null,
            Json::Bool(b) => Json::Bool(*b),
            Json::Number(literal) => Json::Number(literal.clone()),
            Json::Text(s) => Json::Text(s.clone()),
            Json::Array(items) => {
                let mut copies: Vec<Json> = Vec::new();
                let mut i: usize = 0;
                while i < items.len()
                    invariant
                        i <= items.len(),
                        copies@.len() == i,
                        *self == Json::Array(*items),
                        forall|j: int| 0 <= j < i ==> (#[trigger] copies@[j])@ == items@[j]@,
                    decreases items.len() - i,
                {
                    assert(decreases_to!(self => self->Array_0));
                    assert(decreases_to!(self->Array_0 => self->Array_0@));
                    assert(decreases_to!(self->Array_0@ => self->Array_0@[i as int]));
                    copies.push(items[i].copy());
                    i += 1;
                }
                let json = Json::Array(copies);
                assert(json@->Array_0 =~= self@->Array_0);
                json
            },
            Json::Object(members) => {
                let mut copies: Vec<(String, Json)> = Vec::new();
                let mut i: usize = 0;
                while i < members.len()
                    invariant
                        i <= members.len(),
                        copies@.len() == i,
                        *self == Json::Object(*members),
                        forall|j: int|
                            0 <= j < i ==> (#[trigger] copies@[j]).0@ == members@[j].0@
                                && copies@[j].1@ == members@[j].1@,
                    decreases members.len() - i,
                {
                    assert(decreases_to!(self => self->Object_0));
                    assert(decreases_to!(self->Object_0 => self->Object_0@));
                    assert(decreases_to!(self->Object_0@ => self->Object_0@[i as int]));
                    assert(decreases_to!(self->Object_0@[i as int] => self->Object_0@[i as int].1));
                    copies.push((members[i].0.clone(), members[i].1.copy()));
                    i += 1;
                }
                let json = Json::Object(copies);
                assert(json@->Object_0 =~= self@->Object_0);
                json
            },
        }
    }

    /// The value of the member `key`, if this is an object that has one.
    pub fn get(&self, key: &str) -> (value: Option<&Json>)
        ensures
            match value {
                Some(v) => self@.field(key@) == Some(v@),
                None => self@.field(key@) is None,
            },
    {
        match self.as_object() {
            None => None,
            Some(members) => {
                let ghost all = members_view(members@);
                let mut i: usize = members.len();
                assert(all.take(i as int) =~= all);
                while i > 0
                    invariant
                        i <= members.len(),
                        all == members_view(members@),
                        self@ == JsonModel::Object(all),
                        lookup(all, key@) == lookup(all.take(i as int), key@),
                    decreases i,
                {
                    i -= 1;
                    assert(all.take(i + 1).drop_last() =~= all.take(i as int));
                    assert(all.take(i + 1).last() == all[i as int]);
                    assert(all[i as int] == (members@[i as int].0@, members@[i as int].1@));
                    if same_key(members[i].0.as_str(), key) {
                        return Some(&members[i].1);
                    }
                }
                None
            },
        }
    }
}

/// Appends the member `key: value` to a list of members.
pub fn push_member(members: &mut Vec<(String, Json)>, key: &str, value: Json)
    ensures
        members_view(final(members)@) == members_view(old(members)@).push((key@, value@)),
{
    members.push((key.to_owned(), value));
    assert(members_view(members@) =~= members_view(old(members)@).push((key@, value@)));
}

/// `serde_json::Value`, of which nothing is known here: it is met only on
/// the way between JSON text and a [`Json`] tree.
#[verifier::external_type_specification]
#[verifier::external_body]
pub struct ExValue(usiem::serde_json::Value);

/// `serde_json::Error`, carried as it comes.
#[verifier::external_type_specification]
#[verifier::external_body]
pub struct ExJsonError(usiem::serde_json::Error);

/// The tree that JSON text stands for; `None` where the text is no JSON
/// document.
pub uninterp spec fn json_document(text: Seq<char>) -> Option<JsonModel>;

/// The compact JSON text of a tree; `None` where the tree has none, as where
/// one of its numbers is no JSON number.
pub uninterp spec fn json_text(json: JsonModel) -> Option<Seq<char>>;

/// `serde_json::Value` taken variant by variant into a [`Json`] tree. A number
/// becomes the literal that its `Display` writes.
#[verifier::external_body]
fn json_of_value(value: Value) -> Json {
    match value {
        Value::Null => Json::Null,
        Value::Bool(b) => Json::Bool(b),
        Value::Number(n) => Json::Number(n.to_string()),
        Value::String(s) => Json::Text(s),
        Value::Array(items) => Json::Array(items.into_iter().map(json_of_value).collect()),
        Value::Object(members) => Json::Object(
            members.into_iter().map(|(k, v)| (k, json_of_value(v))).collect(),
        ),
    }
}

/// A [`Json`] tree taken variant by variant into a `serde_json::Value`. A
/// number goes through `Number::from_str`, whose error is handed on where it
/// refuses the literal.
#[verifier::external_body]
fn value_of_json(json: &Json) -> Result<Value, usiem::serde_json::Error> {
    Ok(match json {
        Json::Null => Value::Null,
        Json::Bool(b) => Value::Bool(*b),
        Json::Number(literal) => Value::Number(literal.parse()?),
        Json::Text(s) => Value::String(s.clone()),
        Json::Array(items) => Value::Array(items.iter().map(value_of_json).collect::<Result<_, _>>()?),
        Json::Object(members) => Value::Object(
            members.iter().map(|(k, v)| value_of_json(v).map(|v| (k.clone(), v))).collect::<Result<_, _>>()?,
        ),
    })
}

/// `serde_json::from_str`, read as a `serde_json::Value`: the tree of the
/// document that `text` holds, or the parser's error where it holds none.
/// What the tree is depends on the text alone.
#[verifier::external_body]
pub(crate) fn parse_document(text: &str) -> (parsed: Result<Json, usiem::serde_json::Error>)
    ensures
        match parsed {
            Ok(json) => json_document(text@) == Some(json@),
            Err(_) => json_document(text@) is None,
        },
{
    match usiem::serde_json::from_str::<Value>(text) {
        Ok(value) => Ok(json_of_value(value)),
        Err(error) => Err(error),
    }
}

/// `serde_json::to_string` on the tree as a `serde_json::Value`: its compact
/// text, which depends on the tree alone. There is no text where a number
/// of the tree is no JSON number; the error then is the number parser's.
#[verifier::external_body]
pub(crate) fn print_document(json: &Json) -> (printed: Result<String, usiem::serde_json::Error>)
    ensures
        match printed {
            Ok(text) => json_text(json@) == Some(text@),
            Err(_) => json_text(json@) is None,
        },
{
    usiem::serde_json::to_string(&value_of_json(json)?)
}

} // verus!
