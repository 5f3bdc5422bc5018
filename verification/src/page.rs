//! A page, and the values that it gives to the properties of its database.

use vstd::prelude::*;
use crate::block::{BlockElement, BlockModel};
use crate::codec::{
    encode_list, get_required, get_required_list, list_encoding, missing, models, no_members,
    required, required_list, required_list_refusal, required_refusal, under, DecodeError,
    JsonCodec, RoundTrip,
};
use crate::json::{lemma_lookup_push, push_member, Json, JsonModel};
use crate::map::{
    decode_map, encode_map, map_decoding, map_encoding, map_models, map_refusal, PropertyMap,
};
use crate::properties::{
    CreatedByProperty, CreatedTimeValue, DateModel, DateValue, LastEditedByProperty,
    LastEditedTimeProperty, MultiSelectValue, NumberValue, PeopleProperty, RichTextModel,
    RichTextValue, SelectValue, StatusValue, TitleValue,
};

verus! {

/// The database that a page goes into.
#[derive(Default, Debug)]
pub struct DatabaseParent {
    pub database_id: String,
}

impl View for DatabaseParent {
    type V = Seq<char>;

    open spec fn view(&self) -> Seq<char> {
        self.database_id@
    }
}

impl JsonCodec for DatabaseParent {
    open spec fn encoding(model: Seq<char>) -> JsonModel {
        JsonModel::Object(seq![("database_id"@, String::encoding(model))])
    }

    open spec fn decoding(json: JsonModel) -> Option<Seq<char>> {
        required::<String>(json, "database_id"@)
    }

    open spec fn refusal(json: JsonModel) -> Seq<char> {
        required_refusal::<String>(json, "database_id"@)
    }

    fn to_json(&self) -> (json: Json) {
        let mut members = no_members();
        push_member(&mut members, "database_id", self.database_id.to_json());
        Json::object(members)
    }

    fn from_json(json: &Json) -> (value: Result<Self, DecodeError>) {
        match get_required::<String>(json, "database_id") {
            Ok(database_id) => Ok(DatabaseParent { database_id }),
            Err(e) => Err(e),
        }
    }
}

impl RoundTrip for DatabaseParent {
    open spec fn faithful(model: Seq<char>) -> bool {
        true
    }

    proof fn lemma_round_trip(model: Seq<char>) {
        broadcast use lemma_lookup_push;

    }
}

/// The value that a page gives to one property. Its JSON form carries no
/// mark of the kind: the kind is told by the members that are there. A kind
/// that holds nothing here is the object with the one member of its name.
#[derive(Default, Debug)]
#[non_exhaustive]
pub enum PropertyValue {
    Title(TitleValue),
    RichText(RichTextValue),
    Date(DateValue),
    Files,
    CheckBox,
    Url,
    Email,
    PhoneNumber,
    Formula,
    Relation,
    Rollup,
    Number(NumberValue),
    Select(SelectValue),
    MultiSelect(MultiSelectValue),
    People(PeopleProperty),
    CreatedTime(CreatedTimeValue),
    LastEditedBy(LastEditedByProperty),
    CreatedBy(CreatedByProperty),
    LastEditedTime(LastEditedTimeProperty),
    Status(StatusValue),
    /// The value that stands for nothing. No JSON value is read as it.
    #[default]
    Null,
}

/// The mathematical value of a [`PropertyValue`].
pub enum PropertyValueModel {
    Title(Seq<RichTextModel>),
    RichText(Seq<RichTextModel>),
    Date(DateModel),
    Files,
    CheckBox,
    Url,
    Email,
    PhoneNumber,
    Formula,
    Relation,
    Rollup,
    Number(Seq<char>),
    Select(Seq<char>),
    MultiSelect(Seq<Seq<char>>),
    People(Seq<char>),
    CreatedTime(Seq<char>),
    LastEditedBy(Seq<char>),
    CreatedBy(Seq<char>),
    LastEditedTime(Seq<char>),
    Status(Seq<char>),
    Null,
}

impl View for PropertyValue {
    type V = PropertyValueModel;

    open spec fn view(&self) -> PropertyValueModel {
        match self {
            PropertyValue::Title(v) => PropertyValueModel::Title(v@),
            PropertyValue::RichText(v) => PropertyValueModel::RichText(v@),
            PropertyValue::Date(v) => PropertyValueModel::Date(v@),
            PropertyValue::Files => PropertyValueModel::Files,
            PropertyValue::CheckBox => PropertyValueModel::CheckBox,
            PropertyValue::Url => PropertyValueModel::Url,
            PropertyValue::Email => PropertyValueModel::Email,
            PropertyValue::PhoneNumber => PropertyValueModel::PhoneNumber,
            PropertyValue::Formula => PropertyValueModel::Formula,
            PropertyValue::Relation => PropertyValueModel::Relation,
            PropertyValue::Rollup => PropertyValueModel::Rollup,
            PropertyValue::Number(v) => PropertyValueModel::Number(v@),
            PropertyValue::Select(v) => PropertyValueModel::Select(v@),
            PropertyValue::MultiSelect(v) => PropertyValueModel::MultiSelect(v@),
            PropertyValue::People(v) => PropertyValueModel::People(v@),
            PropertyValue::CreatedTime(v) => PropertyValueModel::CreatedTime(v@),
            PropertyValue::LastEditedBy(v) => PropertyValueModel::LastEditedBy(v@),
            PropertyValue::CreatedBy(v) => PropertyValueModel::CreatedBy(v@),
            PropertyValue::LastEditedTime(v) => PropertyValueModel::LastEditedTime(v@),
            PropertyValue::Status(v) => PropertyValueModel::Status(v@),
            PropertyValue::Null => PropertyValueModel::Null,
        }
    }
}

/// The names by which the kinds of value are told apart: no two are the same.
proof fn lemma_value_keys()
    ensures
        "title"@.len() == 5,
        "rich_text"@.len() == 9,
        "date"@.len() == 4 && "date"@[0] == 'd',
        "number"@.len() == 6 && "number"@[0] == 'n',
        "select"@.len() == 6 && "select"@[0] == 's',
        "multi_select"@.len() == 12 && "multi_select"@[0] == 'm',
        "people"@.len() == 6 && "people"@[0] == 'p',
        "id"@.len() == 2,
        "created_time"@.len() == 12 && "created_time"@[0] == 'c',
        "last_edited_by"@.len() == 14,
        "created_by"@.len() == 10,
        "last_edited_time"@.len() == 16,
        "name"@.len() == 4 && "name"@[0] == 'n',
        "title"@[0] == 't',
        "files"@.len() == 5 && "files"@[0] == 'f',
        "checkbox"@.len() == 8 && "checkbox"@[0] == 'c',
        "url"@.len() == 3,
        "email"@.len() == 5 && "email"@[0] == 'e',
        "phone_number"@.len() == 12 && "phone_number"@[0] == 'p',
        "formula"@.len() == 7,
        "relation"@.len() == 8 && "relation"@[0] == 'r',
        "Rollup"@.len() == 6 && "Rollup"@[0] == 'R',
{
    reveal_strlit("title");
    reveal_strlit("rich_text");
    reveal_strlit("date");
    reveal_strlit("number");
    reveal_strlit("select");
    reveal_strlit("multi_select");
    reveal_strlit("people");
    reveal_strlit("id");
    reveal_strlit("created_time");
    reveal_strlit("last_edited_by");
    reveal_strlit("created_by");
    reveal_strlit("last_edited_time");
    reveal_strlit("name");
    reveal_strlit("files");
    reveal_strlit("checkbox");
    reveal_strlit("url");
    reveal_strlit("email");
    reveal_strlit("phone_number");
    reveal_strlit("formula");
    reveal_strlit("relation");
    reveal_strlit("Rollup");
}

/// The JSON form of a kind that holds nothing: the object with the one
/// member `kind`, which holds `null`.
pub open spec fn kind_only(kind: Seq<char>) -> JsonModel {
    JsonModel::Object(seq![(kind, JsonModel::Null)])
}

/// The object with the one member `kind`, which holds `null`.
fn only_member(kind: &str) -> (json: Json)
    ensures
        json@ == kind_only(kind@),
{
    let mut members = no_members();
    push_member(&mut members, kind, Json::Null);
    Json::object(members)
}

impl JsonCodec for PropertyValue {
    /// A value with content is written as its content is, a kind without
    /// content as the one member of its name, and the value that stands for
    /// nothing as `null`.
    open spec fn encoding(model: PropertyValueModel) -> JsonModel {
        match model {
            PropertyValueModel::Title(v) => TitleValue::encoding(v),
            PropertyValueModel::RichText(v) => RichTextValue::encoding(v),
            PropertyValueModel::Date(v) => DateValue::encoding(v),
            PropertyValueModel::Files => kind_only("files"@),
            PropertyValueModel::CheckBox => kind_only("checkbox"@),
            PropertyValueModel::Url => kind_only("url"@),
            PropertyValueModel::Email => kind_only("email"@),
            PropertyValueModel::PhoneNumber => kind_only("phone_number"@),
            PropertyValueModel::Formula => kind_only("formula"@),
            PropertyValueModel::Relation => kind_only("relation"@),
            PropertyValueModel::Rollup => kind_only("Rollup"@),
            PropertyValueModel::Number(v) => NumberValue::encoding(v),
            PropertyValueModel::Select(v) => SelectValue::encoding(v),
            PropertyValueModel::MultiSelect(v) => MultiSelectValue::encoding(v),
            PropertyValueModel::People(v) => PeopleProperty::encoding(v),
            PropertyValueModel::CreatedTime(v) => CreatedTimeValue::encoding(v),
            PropertyValueModel::LastEditedBy(v) => LastEditedByProperty::encoding(v),
            PropertyValueModel::CreatedBy(v) => CreatedByProperty::encoding(v),
            PropertyValueModel::LastEditedTime(v) => LastEditedTimeProperty::encoding(v),
            PropertyValueModel::Status(v) => StatusValue::encoding(v),
            PropertyValueModel::Null => JsonModel::Null,
        }
    }

    /// The kinds are tried in a fixed order, and the first whose shape the
    /// JSON value has is taken: title, rich text, date, then the kinds without
    /// content (files, check box, url, email, phone number, formula,
    /// relation, rollup), of which each is known by the member of its name,
    /// whatever that holds; then number, select, multi-select, people,
    /// creation time, last editor, creator, last edit, status. A value of no
    /// kind's shape is refused, `null` too.
    open spec fn decoding(json: JsonModel) -> Option<PropertyValueModel> {
        if TitleValue::decoding(json) is Some {
            Some(PropertyValueModel::Title(TitleValue::decoding(json).unwrap()))
        } else if RichTextValue::decoding(json) is Some {
            Some(PropertyValueModel::RichText(RichTextValue::decoding(json).unwrap()))
        } else if DateValue::decoding(json) is Some {
            Some(PropertyValueModel::Date(DateValue::decoding(json).unwrap()))
        } else if json.has_key("files"@) {
            Some(PropertyValueModel::Files)
        } else if json.has_key("checkbox"@) {
            Some(PropertyValueModel::CheckBox)
        } else if json.has_key("url"@) {
            Some(PropertyValueModel::Url)
        } else if json.has_key("email"@) {
            Some(PropertyValueModel::Email)
        } else if json.has_key("phone_number"@) {
            Some(PropertyValueModel::PhoneNumber)
        } else if json.has_key("formula"@) {
            Some(PropertyValueModel::Formula)
        } else if json.has_key("relation"@) {
            Some(PropertyValueModel::Relation)
        } else if json.has_key("Rollup"@) {
            Some(PropertyValueModel::Rollup)
        } else if NumberValue::decoding(json) is Some {
            Some(PropertyValueModel::Number(NumberValue::decoding(json).unwrap()))
        } else if SelectValue::decoding(json) is Some {
            Some(PropertyValueModel::Select(SelectValue::decoding(json).unwrap()))
        } else if MultiSelectValue::decoding(json) is Some {
            Some(PropertyValueModel::MultiSelect(MultiSelectValue::decoding(json).unwrap()))
        } else if PeopleProperty::decoding(json) is Some {
            Some(PropertyValueModel::People(PeopleProperty::decoding(json).unwrap()))
        } else if CreatedTimeValue::decoding(json) is Some {
            Some(PropertyValueModel::CreatedTime(CreatedTimeValue::decoding(json).unwrap()))
        } else if LastEditedByProperty::decoding(json) is Some {
            Some(PropertyValueModel::LastEditedBy(LastEditedByProperty::decoding(json).unwrap()))
        } else if CreatedByProperty::decoding(json) is Some {
            Some(PropertyValueModel::CreatedBy(CreatedByProperty::decoding(json).unwrap()))
        } else if LastEditedTimeProperty::decoding(json) is Some {
            Some(
                PropertyValueModel::LastEditedTime(LastEditedTimeProperty::decoding(json).unwrap()),
            )
        } else if StatusValue::decoding(json) is Some {
            Some(PropertyValueModel::Status(StatusValue::decoding(json).unwrap()))
        } else {
            None
        }
    }

    open spec fn refusal(json: JsonModel) -> Seq<char> {
        "no kind of value has this shape"@
    }

    fn to_json(&self) -> (json: Json) {
        match self {
            PropertyValue::Title(v) => v.to_json(),
            PropertyValue::RichText(v) => v.to_json(),
            PropertyValue::Date(v) => v.to_json(),
            PropertyValue::Number(v) => v.to_json(),
            PropertyValue::Select(v) => v.to_json(),
            PropertyValue::MultiSelect(v) => v.to_json(),
            PropertyValue::People(v) => v.to_json(),
            PropertyValue::CreatedTime(v) => v.to_json(),
            PropertyValue::LastEditedBy(v) => v.to_json(),
            PropertyValue::CreatedBy(v) => v.to_json(),
            PropertyValue::LastEditedTime(v) => v.to_json(),
            PropertyValue::Status(v) => v.to_json(),
            PropertyValue::Files => only_member("files"),
            PropertyValue::CheckBox => only_member("checkbox"),
            PropertyValue::Url => only_member("url"),
            PropertyValue::Email => only_member("email"),
            PropertyValue::PhoneNumber => only_member("phone_number"),
            PropertyValue::Formula => only_member("formula"),
            PropertyValue::Relation => only_member("relation"),
            PropertyValue::Rollup => only_member("Rollup"),
            PropertyValue::Null => Json::Null,
        }
    }

    fn from_json(json: &Json) -> (value: Result<Self, DecodeError>) {
        if let Ok(v) = TitleValue::from_json(json) {
            return Ok(PropertyValue::Title(v));
        }
        if let Ok(v) = RichTextValue::from_json(json) {
            return Ok(PropertyValue::RichText(v));
        }
        if let Ok(v) = DateValue::from_json(json) {
            return Ok(PropertyValue::Date(v));
        }
        if json.get("files").is_some() {
            return Ok(PropertyValue::Files);
        }
        if json.get("checkbox").is_some() {
            return Ok(PropertyValue::CheckBox);
        }
        if json.get("url").is_some() {
            return Ok(PropertyValue::Url);
        }
        if json.get("email").is_some() {
            return Ok(PropertyValue::Email);
        }
        if json.get("phone_number").is_some() {
            return Ok(PropertyValue::PhoneNumber);
        }
        if json.get("formula").is_some() {
            return Ok(PropertyValue::Formula);
        }
        if json.get("relation").is_some() {
            return Ok(PropertyValue::Relation);
        }
        if json.get("Rollup").is_some() {
            return Ok(PropertyValue::Rollup);
        }
        if let Ok(v) = NumberValue::from_json(json) {
            return Ok(PropertyValue::Number(v));
        }
        if let Ok(v) = SelectValue::from_json(json) {
            return Ok(PropertyValue::Select(v));
        }
        if let Ok(v) = MultiSelectValue::from_json(json) {
            return Ok(PropertyValue::MultiSelect(v));
        }
        if let Ok(v) = PeopleProperty::from_json(json) {
            return Ok(PropertyValue::People(v));
        }
        if let Ok(v) = CreatedTimeValue::from_json(json) {
            return Ok(PropertyValue::CreatedTime(v));
        }
        if let Ok(v) = LastEditedByProperty::from_json(json) {
            return Ok(PropertyValue::LastEditedBy(v));
        }
        if let Ok(v) = CreatedByProperty::from_json(json) {
            return Ok(PropertyValue::CreatedBy(v));
        }
        if let Ok(v) = LastEditedTimeProperty::from_json(json) {
            return Ok(PropertyValue::LastEditedTime(v));
        }
        if let Ok(v) = StatusValue::from_json(json) {
            return Ok(PropertyValue::Status(v));
        }
        Err(DecodeError::new("no kind of value has this shape"))
    }
}

impl RoundTrip for PropertyValue {
    /// Every value but the one that stands for nothing, as which no JSON
    /// value is read.
    open spec fn faithful(model: PropertyValueModel) -> bool {
        !(model is Null)
    }

    #[verifier::rlimit(50)]
    proof fn lemma_round_trip(model: PropertyValueModel) {
        broadcast use lemma_lookup_push;

        lemma_value_keys();
        match model {
            PropertyValueModel::Title(v) => {
                TitleValue::lemma_round_trip(v);
            },
            PropertyValueModel::RichText(v) => {
                RichTextValue::lemma_round_trip(v);
            },
            PropertyValueModel::Date(v) => {
                DateValue::lemma_round_trip(v);
            },
            PropertyValueModel::Number(v) => {
                NumberValue::lemma_round_trip(v);
            },
            PropertyValueModel::Select(v) => {
                SelectValue::lemma_round_trip(v);
            },
            PropertyValueModel::MultiSelect(v) => {
                MultiSelectValue::lemma_round_trip(v);
            },
            PropertyValueModel::People(v) => {
                PeopleProperty::lemma_round_trip(v);
            },
            PropertyValueModel::CreatedTime(v) => {
                CreatedTimeValue::lemma_round_trip(v);
            },
            PropertyValueModel::LastEditedBy(v) => {
                LastEditedByProperty::lemma_round_trip(v);
            },
            PropertyValueModel::CreatedBy(v) => {
                CreatedByProperty::lemma_round_trip(v);
            },
            PropertyValueModel::LastEditedTime(v) => {
                LastEditedTimeProperty::lemma_round_trip(v);
            },
            PropertyValueModel::Status(v) => {
                StatusValue::lemma_round_trip(v);
            },
            _ => {},
        }
    }
}

/// One page to be created in a database: where it goes, the values of its
/// properties, and its content from top to bottom.
#[derive(Default, Debug)]
pub struct PageElement {
    pub parent: DatabaseParent,
    pub properties: PropertyMap<PropertyValue>,
    pub children: Vec<BlockElement>,
}

/// The mathematical value of a [`PageElement`].
pub struct PageModel {
    pub parent: Seq<char>,
    pub properties: Map<Seq<char>, PropertyValueModel>,
    pub children: Seq<BlockModel>,
}

impl View for PageElement {
    type V = PageModel;

    open spec fn view(&self) -> PageModel {
        PageModel {
            parent: self.parent@,
            properties: map_models(self.properties@),
            children: models(self.children@),
        }
    }
}

/// The members of a page that are always written.
pub open spec fn page_head(model: PageModel) -> Seq<(Seq<char>, JsonModel)> {
    Seq::empty().push(("parent"@, DatabaseParent::encoding(model.parent))).push(
        ("properties"@, map_encoding::<PropertyValue>(model.properties)),
    )
}

impl JsonCodec for PageElement {
    /// The content is left out where the page has none.
    open spec fn encoding(model: PageModel) -> JsonModel {
        JsonModel::Object(
            if model.children.len() == 0 {
                page_head(model)
            } else {
                page_head(model).push(
                    ("children"@, list_encoding::<BlockElement>(model.children)),
                )
            },
        )
    }

    /// All three members are asked for, the content too.
    open spec fn decoding(json: JsonModel) -> Option<PageModel> {
        let parent = required::<DatabaseParent>(json, "parent"@);
        let properties = match json.field("properties"@) {
            Some(value) => map_decoding::<PropertyValue>(value),
            None => None,
        };
        let children = required_list::<BlockElement>(json, "children"@);
        if parent is Some && properties is Some && children is Some {
            Some(
                PageModel {
                    parent: parent.unwrap(),
                    properties: properties.unwrap(),
                    children: children.unwrap(),
                },
            )
        } else {
            None
        }
    }

    open spec fn refusal(json: JsonModel) -> Seq<char> {
        if required::<DatabaseParent>(json, "parent"@) is None {
            required_refusal::<DatabaseParent>(json, "parent"@)
        } else if json.field("properties"@) is None {
            missing("properties"@)
        } else if map_decoding::<PropertyValue>(json.field("properties"@).unwrap()) is None {
            under("properties"@, map_refusal::<PropertyValue>(json.field("properties"@).unwrap()))
        } else {
            required_list_refusal::<BlockElement>(json, "children"@)
        }
    }

    fn to_json(&self) -> (json: Json) {
        let mut members = no_members();
        push_member(&mut members, "parent", self.parent.to_json());
        push_member(&mut members, "properties", encode_map(&self.properties));
        if self.children.len() != 0 {
            push_member(&mut members, "children", encode_list(&self.children));
        }
        Json::object(members)
    }

    fn from_json(json: &Json) -> (value: Result<Self, DecodeError>) {
        let parent = get_required::<DatabaseParent>(json, "parent");
        let properties = match json.get("properties") {
            Some(value) => match decode_map::<PropertyValue>(value) {
                Ok(map) => Ok(map),
                Err(e) => Err(e.under("properties")),
            },
            None => Err(DecodeError::missing("properties")),
        };
        let children = get_required_list::<BlockElement>(json, "children");
        match (parent, properties, children) {
            (Ok(parent), Ok(properties), Ok(children)) => Ok(
                PageElement { parent, properties, children },
            ),
            (Err(e), _, _) => Err(e),
            (_, Err(e), _) => Err(e),
            (_, _, Err(e)) => Err(e),
        }
    }
}

/// The content of a page is left out of its JSON form where the page has
/// none, and written where it has some.
pub proof fn lemma_page_omission(model: PageModel)
    ensures
        PageElement::encoding(model).has_key("children"@) == (model.children.len() > 0),
{
    broadcast use lemma_lookup_push;

    reveal_strlit("parent");
    reveal_strlit("properties");
    reveal_strlit("children");
    assert("parent"@.len() == 6 && "properties"@.len() == 10 && "children"@.len() == 8);
}

} // verus!
