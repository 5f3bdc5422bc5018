//! What it is for a type to have a JSON form, and the forms of text, flags,
//! lists and the members of an object.

use vstd::prelude::*;
use vstd::string::StringExecFns;
use crate::json::{
    items_view, lemma_lookup_push, lookup, members_view, push_member, Json, JsonModel,
};

verus! {

/// Why a JSON value was not read: what was found wanting, after the names of
/// the members under which it was found.
#[derive(Debug)]
pub struct DecodeError {
    pub message: String,
}

impl View for DecodeError {
    type V = Seq<char>;

    open spec fn view(&self) -> Seq<char> {
        self.message@
    }
}

/// The words for an object that lacks the member `key`.
pub open spec fn missing(key: Seq<char>) -> Seq<char> {
    "missing member `"@ + key + "`"@
}

/// The words `words`, said of the member `key`.
pub open spec fn under(key: Seq<char>, words: Seq<char>) -> Seq<char> {
    key + ": "@ + words
}

impl DecodeError {
    /// The refusal that says `message`.
    pub fn new(message: &str) -> (error: DecodeError)
        ensures
            error@ == message@,
    {
        DecodeError { message: message.to_owned() }
    }

    /// The refusal of an object that lacks the member `key`.
    pub fn missing(key: &str) -> (error: DecodeError)
        ensures
            error@ == missing(key@),
    {
        let mut message = "missing member `".to_owned();
        message.append(key);
        message.append("`");
        DecodeError { message }
    }

    /// The same refusal, met in the member `key`.
    pub fn under(self, key: &str) -> (error: DecodeError)
        ensures
            error@ == under(key@, self@),
    {
        let mut message = key.to_owned();
        message.append(": ");
        message.append(self.message.as_str());
        DecodeError { message }
    }
}

/// A type whose values have a JSON form.
pub trait JsonCodec: View + Sized {
    /// The JSON value that stands for a value of this type.
    spec fn encoding(model: Self::V) -> JsonModel;

    /// The value that a JSON value stands for; `None` where the JSON value
    /// has not the shape of this type.
    spec fn decoding(json: JsonModel) -> Option<Self::V>;

    /// Writes the value as JSON.
    fn to_json(&self) -> (json: Json)
        ensures
            json@ == Self::encoding(self@),
    ;

    /// The words with which a JSON value that has not the shape of this type
    /// is refused: what was found wanting first, after the names of the
    /// members under which it was found.
    spec fn refusal(json: JsonModel) -> Seq<char>;

    /// Reads a value from JSON. A value that has not the shape of this
    /// type is refused, with a word on what was found wanting.
    fn from_json(json: &Json) -> (value: Result<Self, DecodeError>)
        ensures
            match value {
                Ok(v) => Self::decoding(json@) == Some(v@),
                Err(e) => Self::decoding(json@) is None && e@ == Self::refusal(json@),
            },
    ;
}

/// A type whose values come back from their JSON form as they went in.
pub trait RoundTrip: JsonCodec {
    /// The values of which this holds.
    spec fn faithful(model: Self::V) -> bool;

    /// Writing a faithful value and reading it again gives the value back.
    proof fn lemma_round_trip(model: Self::V)
        requires
            Self::faithful(model),
        ensures
            Self::decoding(Self::encoding(model)) == Some(model),
    ;
}

impl JsonCodec for Json {
    /// A JSON value stands for itself.
    open spec fn encoding(model: JsonModel) -> JsonModel {
        model
    }

    open spec fn decoding(json: JsonModel) -> Option<JsonModel> {
        Some(json)
    }

    open spec fn refusal(json: JsonModel) -> Seq<char> {
        Seq::empty()
    }

    fn to_json(&self) -> (json: Json) {
        self.copy()
    }

    fn from_json(json: &Json) -> (value: Result<Json, DecodeError>) {
        Ok(json.copy())
    }
}

impl RoundTrip for Json {
    open spec fn faithful(model: JsonModel) -> bool {
        true
    }

    proof fn lemma_round_trip(model: JsonModel) {
    }
}

impl JsonCodec for String {
    open spec fn encoding(model: Seq<char>) -> JsonModel {
        JsonModel::Text(model)
    }

    open spec fn decoding(json: JsonModel) -> Option<Seq<char>> {
        match json {
            JsonModel::Text(s) => Some(s),
            _ => None,
        }
    }

    open spec fn refusal(json: JsonModel) -> Seq<char> {
        "not a text"@
    }

    fn to_json(&self) -> (json: Json) {
        Json::Text(self.clone())
    }

    fn from_json(json: &Json) -> (value: Result<String, DecodeError>) {
        match json.as_text() {
            Some(s) => Ok(s.clone()),
            None => Err(DecodeError::new("not a text")),
        }
    }

}

impl RoundTrip for String {
    open spec fn faithful(model: Seq<char>) -> bool {
        true
    }

    proof fn lemma_round_trip(model: Seq<char>) {
    }
}

impl JsonCodec for bool {
    open spec fn encoding(model: bool) -> JsonModel {
        JsonModel::Bool(model)
    }

    open spec fn decoding(json: JsonModel) -> Option<bool> {
        match json {
            JsonModel::Bool(b) => Some(b),
            _ => None,
        }
    }

    open spec fn refusal(json: JsonModel) -> Seq<char> {
        "neither true nor false"@
    }

    fn to_json(&self) -> (json: Json) {
        Json::Bool(*self)
    }

    fn from_json(json: &Json) -> (value: Result<bool, DecodeError>) {
        match json {
            Json::Bool(b) => Ok(*b),
            _ => Err(DecodeError::new("neither true nor false")),
        }
    }

}

impl RoundTrip for bool {
    open spec fn faithful(model: bool) -> bool {
        true
    }

    proof fn lemma_round_trip(model: bool) {
    }
}

/// The models of a list of values.
pub open spec fn models<T: View>(items: Seq<T>) -> Seq<T::V> {
    Seq::new(items.len(), |i: int| items[i]@)
}

/// The JSON form of a list: the array of the forms of its items, in order.
pub open spec fn list_encoding<T: JsonCodec>(list: Seq<T::V>) -> JsonModel {
    JsonModel::Array(Seq::new(list.len(), |i: int| T::encoding(list[i])))
}

/// Every item of `items` has the shape of a `T`.
pub open spec fn all_decode<T: JsonCodec>(items: Seq<JsonModel>) -> bool {
    forall|i: int| 0 <= i < items.len() ==> (#[trigger] T::decoding(items[i])) is Some
}

/// The list that a JSON value stands for: it is an array, and each item has
/// the shape of a `T`.
pub open spec fn list_decoding<T: JsonCodec>(json: JsonModel) -> Option<Seq<T::V>> {
    match json {
        JsonModel::Array(items) => if all_decode::<T>(items) {
            Some(Seq::new(items.len(), |i: int| T::decoding(items[i]).unwrap()))
        } else {
            None
        },
        _ => None,
    }
}

/// The place of the first of `items` that has not the shape of a `T`, where
/// there is one.
pub open spec fn first_refused<T: JsonCodec>(items: Seq<JsonModel>) -> int
    decreases items.len(),
{
    if items.len() == 0 || T::decoding(items[0]) is None {
        0
    } else {
        1 + first_refused::<T>(items.drop_first())
    }
}

/// An item that has not the shape of a `T`, after items that all have it, is
/// the first that is refused.
pub proof fn lemma_first_refused<T: JsonCodec>(items: Seq<JsonModel>, at: int)
    requires
        0 <= at < items.len(),
        forall|j: int| 0 <= j < at ==> (#[trigger] T::decoding(items[j])) is Some,
        T::decoding(items[at]) is None,
    ensures
        first_refused::<T>(items) == at,
    decreases at,
{
    if at > 0 {
        let rest = items.drop_first();
        assert forall|j: int| 0 <= j < at - 1 implies (#[trigger] T::decoding(rest[j])) is Some by {
            assert(rest[j] == items[j + 1]);
            assert(T::decoding(items[j + 1]) is Some);
        }
        assert(rest[at - 1] == items[at]);
        assert(T::decoding(items[0]) is Some);
        lemma_first_refused::<T>(rest, at - 1);
    }
}

/// The words with which a JSON value is refused as a list of `T`: it is no
/// array, or the first item that has not the shape of a `T` is refused.
pub open spec fn list_refusal<T: JsonCodec>(json: JsonModel) -> Seq<char> {
    match json {
        JsonModel::Array(items) => under("item"@, T::refusal(items[first_refused::<T>(items)])),
        _ => "not an array"@,
    }
}

/// Every item of a list is faithful.
pub open spec fn list_faithful<T: RoundTrip>(list: Seq<T::V>) -> bool {
    forall|i: int| 0 <= i < list.len() ==> #[trigger] T::faithful(list[i])
}

/// A list of faithful items comes back from its JSON form as it went in.
pub proof fn lemma_list_round_trip<T: RoundTrip>(list: Seq<T::V>)
    requires
        list_faithful::<T>(list),
    ensures
        list_decoding::<T>(list_encoding::<T>(list)) == Some(list),
{
    let items = list_encoding::<T>(list)->Array_0;
    assert forall|i: int| 0 <= i < items.len() implies #[trigger] T::decoding(items[i]) == Some(
        list[i],
    ) by {
        assert(T::faithful(list[i]));
        T::lemma_round_trip(list[i]);
    }
    assert(all_decode::<T>(items));
    assert(list_decoding::<T>(list_encoding::<T>(list))->Some_0 =~= list);
}

/// Writes a list as a JSON array.
pub fn encode_list<T: JsonCodec>(list: &Vec<T>) -> (json: Json)
    ensures
        json@ == list_encoding::<T>(models(list@)),
{
    let mut items: Vec<Json> = Vec::new();
    let mut i: usize = 0;
    while i < list.len()
        invariant
            i <= list.len(),
            items@.len() == i,
            forall|j: int| 0 <= j < i ==> (#[trigger] items@[j])@ == T::encoding(list@[j]@),
        decreases list.len() - i,
    {
        items.push(list[i].to_json());
        i += 1;
    }
    let json = Json::array(items);
    assert(json@->Array_0 =~= list_encoding::<T>(models(list@))->Array_0);
    json
}

/// Reads a list from a JSON array. Fails where the value is no array, or an
/// item has not the shape of a `T`.
pub fn decode_list<T: JsonCodec>(json: &Json) -> (list: Result<Vec<T>, DecodeError>)
    ensures
        match list {
            Ok(v) => list_decoding::<T>(json@) == Some(models(v@)),
            Err(e) => list_decoding::<T>(json@) is None && e@ == list_refusal::<T>(json@),
        },
{
    match json.as_array() {
        None => Err(DecodeError::new("not an array")),
        Some(items) => {
            let ghost all = items_view(items@);
            let mut list: Vec<T> = Vec::new();
            let mut i: usize = 0;
            while i < items.len()
                invariant
                    i <= items.len(),
                    list@.len() == i,
                    all == items_view(items@),
                    json@ == JsonModel::Array(all),
                    forall|j: int|
                        0 <= j < i ==> (#[trigger] T::decoding(all[j])) == Some(list@[j]@),
                decreases items.len() - i,
            {
                assert(all[i as int] == items@[i as int]@);
                match T::from_json(&items[i]) {
                    Ok(item) => {
                        list.push(item);
                    },
                    Err(e) => {
                        proof {
                            lemma_first_refused::<T>(all, i as int);
                        }
                        return Err(e.under("item"));
                    },
                }
                i += 1;
            }
            assert(all_decode::<T>(all));
            assert(list_decoding::<T>(json@)->Some_0 =~= models(list@));
            Ok(list)
        },
    }
}

/// The value of the member `key` read as a `T`; `None` where the member is
/// missing or has not the shape of a `T`.
pub open spec fn required<T: JsonCodec>(json: JsonModel, key: Seq<char>) -> Option<T::V> {
    match json.field(key) {
        Some(value) => T::decoding(value),
        None => None,
    }
}

/// The words with which the member `key` is refused as a `T`: it is
/// missing, or what it holds is refused.
pub open spec fn required_refusal<T: JsonCodec>(json: JsonModel, key: Seq<char>) -> Seq<char> {
    match json.field(key) {
        Some(value) => under(key, T::refusal(value)),
        None => missing(key),
    }
}

/// The words with which the member `key` is refused as a list of `T`.
pub open spec fn required_list_refusal<T: JsonCodec>(json: JsonModel, key: Seq<char>) -> Seq<
    char,
> {
    match json.field(key) {
        Some(value) => under(key, list_refusal::<T>(value)),
        None => missing(key),
    }
}

/// The words with which the member `key`, which may be left out, is refused
/// as a `T` where it is there.
pub open spec fn optional_refusal<T: JsonCodec>(json: JsonModel, key: Seq<char>) -> Seq<char> {
    match json.field(key) {
        Some(value) => under(key, T::refusal(value)),
        None => Seq::empty(),
    }
}

/// The value of the member `key` read as a list of `T`.
pub open spec fn required_list<T: JsonCodec>(json: JsonModel, key: Seq<char>) -> Option<
    Seq<T::V>,
> {
    match json.field(key) {
        Some(value) => list_decoding::<T>(value),
        None => None,
    }
}

/// The value of a member that may be left out: a missing member and `null`
/// both stand for no value. `None` where the member is there and has not the
/// shape of a `T`.
pub open spec fn optional<T: JsonCodec>(json: JsonModel, key: Seq<char>) -> Option<
    Option<T::V>,
> {
    match json.field(key) {
        None => Some(None),
        Some(JsonModel::Null) => Some(None),
        Some(value) => match T::decoding(value) {
            Some(v) => Some(Some(v)),
            None => None,
        },
    }
}

/// The members `members` followed by the member `key`, which is left out
/// where there is no value.
#[verifier::opaque]
pub open spec fn with_optional<T: JsonCodec>(
    members: Seq<(Seq<char>, JsonModel)>,
    key: Seq<char>,
    value: Option<T::V>,
) -> Seq<(Seq<char>, JsonModel)> {
    match value {
        Some(v) => members.push((key, T::encoding(v))),
        None => members,
    }
}

/// A member that may be left out is found where it has a value, and hides
/// no other member.
pub broadcast proof fn lemma_lookup_with_optional<T: JsonCodec>(
    members: Seq<(Seq<char>, JsonModel)>,
    key: Seq<char>,
    value: Option<T::V>,
    wanted: Seq<char>,
)
    ensures
        #[trigger] lookup(with_optional::<T>(members, key, value), wanted) == if value is Some
            && key == wanted {
            Some(T::encoding(value.unwrap()))
        } else {
            lookup(members, wanted)
        },
{
    reveal(with_optional);
    if value is Some {
        lemma_lookup_push(members, (key, T::encoding(value.unwrap())), wanted);
    }
}

/// Reads the member `key` as a `T`.
pub fn get_required<T: JsonCodec>(json: &Json, key: &str) -> (value: Result<T, DecodeError>)
    ensures
        match value {
            Ok(v) => required::<T>(json@, key@) == Some(v@),
            Err(e) => required::<T>(json@, key@) is None && e@ == required_refusal::<T>(
                json@,
                key@,
            ),
        },
{
    match json.get(key) {
        Some(member) => match T::from_json(member) {
            Ok(v) => Ok(v),
            Err(e) => Err(e.under(key)),
        },
        None => Err(DecodeError::missing(key)),
    }
}

/// Reads the member `key` as a list of `T`.
pub fn get_required_list<T: JsonCodec>(json: &Json, key: &str) -> (value: Result<
    Vec<T>,
    DecodeError,
>)
    ensures
        match value {
            Ok(v) => required_list::<T>(json@, key@) == Some(models(v@)),
            Err(e) => required_list::<T>(json@, key@) is None && e@ == required_list_refusal::<T>(
                json@,
                key@,
            ),
        },
{
    match json.get(key) {
        Some(member) => match decode_list::<T>(member) {
            Ok(v) => Ok(v),
            Err(e) => Err(e.under(key)),
        },
        None => Err(DecodeError::missing(key)),
    }
}

/// The model of a value that may be missing.
pub open spec fn option_model<T: View>(value: Option<T>) -> Option<T::V> {
    match value {
        Some(v) => Some(v@),
        None => None,
    }
}

/// Reads the member `key`, which may be left out, as a `T`.
pub fn get_optional<T: JsonCodec>(json: &Json, key: &str) -> (value: Result<
    Option<T>,
    DecodeError,
>)
    ensures
        match value {
            Ok(v) => optional::<T>(json@, key@) == Some(option_model(v)),
            Err(e) => optional::<T>(json@, key@) is None && e@ == optional_refusal::<T>(
                json@,
                key@,
            ),
        },
{
    match json.get(key) {
        None => Ok(None),
        Some(Json::Null) => Ok(None),
        Some(member) => match T::from_json(member) {
            Ok(v) => Ok(Some(v)),
            Err(e) => Err(e.under(key)),
        },
    }
}

/// Appends the member `key` to `members` where there is a value.
pub fn push_optional<T: JsonCodec>(members: &mut Vec<(String, Json)>, key: &str, value: &Option<T>)
    ensures
        members_view(final(members)@) == with_optional::<T>(
            members_view(old(members)@),
            key@,
            option_model(*value),
        ),
{
    reveal(with_optional);
    match value {
        Some(v) => {
            push_member(members, key, v.to_json());
        },
        None => {},
    }
}

/// A list of members that is still empty.
pub fn no_members() -> (members: Vec<(String, Json)>)
    ensures
        members_view(members@) == Seq::<(Seq<char>, JsonModel)>::empty(),
{
    let members: Vec<(String, Json)> = Vec::new();
    assert(members_view(members@) =~= Seq::<(Seq<char>, JsonModel)>::empty());
    members
}

} // verus!
