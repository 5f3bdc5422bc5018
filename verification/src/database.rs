//! A database as it describes itself: its properties, each with its kind.

use vstd::prelude::*;
use crate::codec::{
    get_required, missing, no_members, required, required_refusal, under, DecodeError, JsonCodec,
};
use crate::json::{members_view, push_member, Json, JsonModel};
use crate::map::{
    decode_map, encode_map, map_decoding, map_encoding, map_models, map_refusal, PropertyMap,
};
use crate::properties::{
    CreatedByProperty, CreatedTimeProperty, DateProperty, LastEditedByProperty,
    LastEditedTimeProperty, MultiSelectProperty, NumberProperty, NumberPropertyModel,
    PeopleProperty, RichTextProperty, SelectProperty, StatusProperty, StatusPropertyModel,
    TitleProperty,
};
use crate::text::same_key;

verus! {

/// One property of a database, by its kind. The kinds that carry nothing
/// here are kept as their name alone.
#[derive(Default, Debug, Hash)]
#[non_exhaustive]
pub enum PropertyDefinition {
    Title(TitleProperty),
    RichText(RichTextProperty),
    Date(DateProperty),
    Files,
    CheckBox,
    Url,
    Email,
    PhoneNumber,
    Formula,
    Relation,
    Rollup,
    Number(NumberProperty),
    Select(SelectProperty),
    MultiSelect(MultiSelectProperty),
    People(PeopleProperty),
    CreatedTime(CreatedTimeProperty),
    LastEditedBy(LastEditedByProperty),
    CreatedBy(CreatedByProperty),
    LastEditedTime(LastEditedTimeProperty),
    Status(StatusProperty),
    /// A property of a kind that is not known here.
    #[default]
    Null,
}

/// The mathematical value of a [`PropertyDefinition`].
pub enum PropertyDefinitionModel {
    Title(Seq<char>),
    RichText(Seq<char>),
    Date(Seq<char>),
    Files,
    CheckBox,
    Url,
    Email,
    PhoneNumber,
    Formula,
    Relation,
    Rollup,
    Number(NumberPropertyModel),
    Select(Seq<char>),
    MultiSelect(Seq<char>),
    People(Seq<char>),
    CreatedTime(Seq<char>),
    LastEditedBy(Seq<char>),
    CreatedBy(Seq<char>),
    LastEditedTime(Seq<char>),
    Status(StatusPropertyModel),
    Null,
}

impl View for PropertyDefinition {
    type V = PropertyDefinitionModel;

    open spec fn view(&self) -> PropertyDefinitionModel {
        match self {
            PropertyDefinition::Title(v) => PropertyDefinitionModel::Title(v@),
            PropertyDefinition::RichText(v) => PropertyDefinitionModel::RichText(v@),
            PropertyDefinition::Date(v) => PropertyDefinitionModel::Date(v@),
            PropertyDefinition::Files => PropertyDefinitionModel::Files,
            PropertyDefinition::CheckBox => PropertyDefinitionModel::CheckBox,
            PropertyDefinition::Url => PropertyDefinitionModel::Url,
            PropertyDefinition::Email => PropertyDefinitionModel::Email,
            PropertyDefinition::PhoneNumber => PropertyDefinitionModel::PhoneNumber,
            PropertyDefinition::Formula => PropertyDefinitionModel::Formula,
            PropertyDefinition::Relation => PropertyDefinitionModel::Relation,
            PropertyDefinition::Rollup => PropertyDefinitionModel::Rollup,
            PropertyDefinition::Number(v) => PropertyDefinitionModel::Number(v@),
            PropertyDefinition::Select(v) => PropertyDefinitionModel::Select(v@),
            PropertyDefinition::MultiSelect(v) => PropertyDefinitionModel::MultiSelect(v@),
            PropertyDefinition::People(v) => PropertyDefinitionModel::People(v@),
            PropertyDefinition::CreatedTime(v) => PropertyDefinitionModel::CreatedTime(v@),
            PropertyDefinition::LastEditedBy(v) => PropertyDefinitionModel::LastEditedBy(v@),
            PropertyDefinition::CreatedBy(v) => PropertyDefinitionModel::CreatedBy(v@),
            PropertyDefinition::LastEditedTime(v) => PropertyDefinitionModel::LastEditedTime(v@),
            PropertyDefinition::Status(v) => PropertyDefinitionModel::Status(v@),
            PropertyDefinition::Null => PropertyDefinitionModel::Null,
        }
    }
}

/// The members of `content`, an object, after the member `type: kind`.
pub open spec fn with_kind(kind: Seq<char>, content: JsonModel) -> JsonModel {
    match content {
        JsonModel::Object(members) => JsonModel::Object(
            seq![("type"@, JsonModel::Text(kind))] + members,
        ),
        _ => content,
    }
}

/// The object that has the member `type: kind` alone.
pub open spec fn kind_alone(kind: Seq<char>) -> JsonModel {
    JsonModel::Object(seq![("type"@, JsonModel::Text(kind))])
}

/// The property of the kind `kind` that the object `json` stands for. A kind
/// that is not known here gives the property of unknown kind; a known kind
/// whose content is not as it should be is refused.
pub open spec fn definition_of(kind: Seq<char>, json: JsonModel) -> Option<
    PropertyDefinitionModel,
> {
    if kind == "title"@ {
        match TitleProperty::decoding(json) {
            Some(v) => Some(PropertyDefinitionModel::Title(v)),
            None => None,
        }
    } else if kind == "rich_text"@ {
        match RichTextProperty::decoding(json) {
            Some(v) => Some(PropertyDefinitionModel::RichText(v)),
            None => None,
        }
    } else if kind == "date"@ {
        match DateProperty::decoding(json) {
            Some(v) => Some(PropertyDefinitionModel::Date(v)),
            None => None,
        }
    } else if kind == "files"@ {
        Some(PropertyDefinitionModel::Files)
    } else if kind == "checkbox"@ {
        Some(PropertyDefinitionModel::CheckBox)
    } else if kind == "url"@ {
        Some(PropertyDefinitionModel::Url)
    } else if kind == "email"@ {
        Some(PropertyDefinitionModel::Email)
    } else if kind == "phone_number"@ {
        Some(PropertyDefinitionModel::PhoneNumber)
    } else if kind == "formula"@ {
        Some(PropertyDefinitionModel::Formula)
    } else if kind == "relation"@ {
        Some(PropertyDefinitionModel::Relation)
    } else if kind == "Rollup"@ {
        Some(PropertyDefinitionModel::Rollup)
    } else if kind == "number"@ {
        match NumberProperty::decoding(json) {
            Some(v) => Some(PropertyDefinitionModel::Number(v)),
            None => None,
        }
    } else if kind == "select"@ {
        match SelectProperty::decoding(json) {
            Some(v) => Some(PropertyDefinitionModel::Select(v)),
            None => None,
        }
    } else if kind == "multi_select"@ {
        match MultiSelectProperty::decoding(json) {
            Some(v) => Some(PropertyDefinitionModel::MultiSelect(v)),
            None => None,
        }
    } else if kind == "people"@ {
        match PeopleProperty::decoding(json) {
            Some(v) => Some(PropertyDefinitionModel::People(v)),
            None => None,
        }
    } else if kind == "created_time"@ {
        match CreatedTimeProperty::decoding(json) {
            Some(v) => Some(PropertyDefinitionModel::CreatedTime(v)),
            None => None,
        }
    } else if kind == "last_edited_by"@ {
        match LastEditedByProperty::decoding(json) {
            Some(v) => Some(PropertyDefinitionModel::LastEditedBy(v)),
            None => None,
        }
    } else if kind == "created_by"@ {
        match CreatedByProperty::decoding(json) {
            Some(v) => Some(PropertyDefinitionModel::CreatedBy(v)),
            None => None,
        }
    } else if kind == "last_edited_time"@ {
        match LastEditedTimeProperty::decoding(json) {
            Some(v) => Some(PropertyDefinitionModel::LastEditedTime(v)),
            None => None,
        }
    } else if kind == "status"@ {
        match StatusProperty::decoding(json) {
            Some(v) => Some(PropertyDefinitionModel::Status(v)),
            None => None,
        }
    } else {
        Some(PropertyDefinitionModel::Null)
    }
}

/// The words with which the object `json` is refused as a property of the
/// kind `kind`. Only a kind with content can be refused.
pub open spec fn definition_refusal(kind: Seq<char>, json: JsonModel) -> Seq<char> {
    if kind == "title"@ {
        TitleProperty::refusal(json)
    } else if kind == "rich_text"@ {
        RichTextProperty::refusal(json)
    } else if kind == "date"@ {
        DateProperty::refusal(json)
    } else if kind == "number"@ {
        NumberProperty::refusal(json)
    } else if kind == "select"@ {
        SelectProperty::refusal(json)
    } else if kind == "multi_select"@ {
        MultiSelectProperty::refusal(json)
    } else if kind == "people"@ {
        PeopleProperty::refusal(json)
    } else if kind == "created_time"@ {
        CreatedTimeProperty::refusal(json)
    } else if kind == "last_edited_by"@ {
        LastEditedByProperty::refusal(json)
    } else if kind == "created_by"@ {
        CreatedByProperty::refusal(json)
    } else if kind == "last_edited_time"@ {
        LastEditedTimeProperty::refusal(json)
    } else if kind == "status"@ {
        StatusProperty::refusal(json)
    } else {
        Seq::empty()
    }
}

/// Puts the member `type: kind` before the members of `content`.
fn mark_kind(kind: &str, content: Json) -> (json: Json)
    ensures
        json@ == with_kind(kind@, content@),
{
    match content {
        Json::Object(mut members) => {
            let ghost rest = members_view(members@);
            assert(content@->Object_0 =~= rest);
            let mut all = no_members();
            push_member(&mut all, "type", Json::text(kind));
            all.append(&mut members);
            let json = Json::object(all);
            assert(json@->Object_0 =~= seq![("type"@, JsonModel::Text(kind@))] + rest);
            json
        },
        other => other,
    }
}

/// The object that tells the kind `kind` and nothing more.
fn only_kind(kind: &str) -> (json: Json)
    ensures
        json@ == kind_alone(kind@),
{
    let mut members = no_members();
    push_member(&mut members, "type", Json::text(kind));
    Json::object(members)
}

impl JsonCodec for PropertyDefinition {
    /// A property is written as an object whose member `type` tells the kind;
    /// the members of its content follow.
    open spec fn encoding(model: PropertyDefinitionModel) -> JsonModel {
        match model {
            PropertyDefinitionModel::Title(v) => with_kind("title"@, TitleProperty::encoding(v)),
            PropertyDefinitionModel::RichText(v) => with_kind(
                "rich_text"@,
                RichTextProperty::encoding(v),
            ),
            PropertyDefinitionModel::Date(v) => with_kind("date"@, DateProperty::encoding(v)),
            PropertyDefinitionModel::Files => kind_alone("files"@),
            PropertyDefinitionModel::CheckBox => kind_alone("checkbox"@),
            PropertyDefinitionModel::Url => kind_alone("url"@),
            PropertyDefinitionModel::Email => kind_alone("email"@),
            PropertyDefinitionModel::PhoneNumber => kind_alone("phone_number"@),
            PropertyDefinitionModel::Formula => kind_alone("formula"@),
            PropertyDefinitionModel::Relation => kind_alone("relation"@),
            PropertyDefinitionModel::Rollup => kind_alone("Rollup"@),
            PropertyDefinitionModel::Number(v) => with_kind("number"@, NumberProperty::encoding(v)),
            PropertyDefinitionModel::Select(v) => with_kind("select"@, SelectProperty::encoding(v)),
            PropertyDefinitionModel::MultiSelect(v) => with_kind(
                "multi_select"@,
                MultiSelectProperty::encoding(v),
            ),
            PropertyDefinitionModel::People(v) => with_kind("people"@, PeopleProperty::encoding(v)),
            PropertyDefinitionModel::CreatedTime(v) => with_kind(
                "created_time"@,
                CreatedTimeProperty::encoding(v),
            ),
            PropertyDefinitionModel::LastEditedBy(v) => with_kind(
                "last_edited_by"@,
                LastEditedByProperty::encoding(v),
            ),
            PropertyDefinitionModel::CreatedBy(v) => with_kind(
                "created_by"@,
                CreatedByProperty::encoding(v),
            ),
            PropertyDefinitionModel::LastEditedTime(v) => with_kind(
                "last_edited_time"@,
                LastEditedTimeProperty::encoding(v),
            ),
            PropertyDefinitionModel::Status(v) => with_kind("status"@, StatusProperty::encoding(v)),
            PropertyDefinitionModel::Null => kind_alone("Null"@),
        }
    }

    /// Only an object whose member `type` is a text is read as a property.
    open spec fn decoding(json: JsonModel) -> Option<PropertyDefinitionModel> {
        match json.field("type"@) {
            Some(JsonModel::Text(kind)) => definition_of(kind, json),
            _ => None,
        }
    }

    open spec fn refusal(json: JsonModel) -> Seq<char> {
        match json.field("type"@) {
            Some(JsonModel::Text(kind)) => definition_refusal(kind, json),
            Some(_) => under("type"@, "not a text"@),
            None => missing("type"@),
        }
    }

    fn to_json(&self) -> (json: Json) {
        match self {
            PropertyDefinition::Title(v) => mark_kind("title", v.to_json()),
            PropertyDefinition::RichText(v) => mark_kind("rich_text", v.to_json()),
            PropertyDefinition::Date(v) => mark_kind("date", v.to_json()),
            PropertyDefinition::Files => only_kind("files"),
            PropertyDefinition::CheckBox => only_kind("checkbox"),
            PropertyDefinition::Url => only_kind("url"),
            PropertyDefinition::Email => only_kind("email"),
            PropertyDefinition::PhoneNumber => only_kind("phone_number"),
            PropertyDefinition::Formula => only_kind("formula"),
            PropertyDefinition::Relation => only_kind("relation"),
            PropertyDefinition::Rollup => only_kind("Rollup"),
            PropertyDefinition::Number(v) => mark_kind("number", v.to_json()),
            PropertyDefinition::Select(v) => mark_kind("select", v.to_json()),
            PropertyDefinition::MultiSelect(v) => mark_kind("multi_select", v.to_json()),
            PropertyDefinition::People(v) => mark_kind("people", v.to_json()),
            PropertyDefinition::CreatedTime(v) => mark_kind("created_time", v.to_json()),
            PropertyDefinition::LastEditedBy(v) => mark_kind("last_edited_by", v.to_json()),
            PropertyDefinition::CreatedBy(v) => mark_kind("created_by", v.to_json()),
            PropertyDefinition::LastEditedTime(v) => mark_kind("last_edited_time", v.to_json()),
            PropertyDefinition::Status(v) => mark_kind("status", v.to_json()),
            PropertyDefinition::Null => only_kind("Null"),
        }
    }

    fn from_json(json: &Json) -> (value: Result<Self, DecodeError>) {
        let kind = match json.get("type") {
            Some(Json::Text(kind)) => kind.as_str(),
            Some(_) => {
                return Err(DecodeError::new("not a text").under("type"));
            },
            None => {
                return Err(DecodeError::missing("type"));
            },
        };
        if same_key(kind, "title") {
            match TitleProperty::from_json(json) {
                Ok(v) => Ok(PropertyDefinition::Title(v)),
                Err(e) => Err(e),
            }
        } else if same_key(kind, "rich_text") {
            match RichTextProperty::from_json(json) {
                Ok(v) => Ok(PropertyDefinition::RichText(v)),
                Err(e) => Err(e),
            }
        } else if same_key(kind, "date") {
            match DateProperty::from_json(json) {
                Ok(v) => Ok(PropertyDefinition::Date(v)),
                Err(e) => Err(e),
            }
        } else if same_key(kind, "files") {
            Ok(PropertyDefinition::Files)
        } else if same_key(kind, "checkbox") {
            Ok(PropertyDefinition::CheckBox)
        } else if same_key(kind, "url") {
            Ok(PropertyDefinition::Url)
        } else if same_key(kind, "email") {
            Ok(PropertyDefinition::Email)
        } else if same_key(kind, "phone_number") {
            Ok(PropertyDefinition::PhoneNumber)
        } else if same_key(kind, "formula") {
            Ok(PropertyDefinition::Formula)
        } else if same_key(kind, "relation") {
            Ok(PropertyDefinition::Relation)
        } else if same_key(kind, "Rollup") {
            Ok(PropertyDefinition::Rollup)
        } else if same_key(kind, "number") {
            match NumberProperty::from_json(json) {
                Ok(v) => Ok(PropertyDefinition::Number(v)),
                Err(e) => Err(e),
            }
        } else if same_key(kind, "select") {
            match SelectProperty::from_json(json) {
                Ok(v) => Ok(PropertyDefinition::Select(v)),
                Err(e) => Err(e),
            }
        } else if same_key(kind, "multi_select") {
            match MultiSelectProperty::from_json(json) {
                Ok(v) => Ok(PropertyDefinition::MultiSelect(v)),
                Err(e) => Err(e),
            }
        } else if same_key(kind, "people") {
            match PeopleProperty::from_json(json) {
                Ok(v) => Ok(PropertyDefinition::People(v)),
                Err(e) => Err(e),
            }
        } else if same_key(kind, "created_time") {
            match CreatedTimeProperty::from_json(json) {
                Ok(v) => Ok(PropertyDefinition::CreatedTime(v)),
                Err(e) => Err(e),
            }
        } else if same_key(kind, "last_edited_by") {
            match LastEditedByProperty::from_json(json) {
                Ok(v) => Ok(PropertyDefinition::LastEditedBy(v)),
                Err(e) => Err(e),
            }
        } else if same_key(kind, "created_by") {
            match CreatedByProperty::from_json(json) {
                Ok(v) => Ok(PropertyDefinition::CreatedBy(v)),
                Err(e) => Err(e),
            }
        } else if same_key(kind, "last_edited_time") {
            match LastEditedTimeProperty::from_json(json) {
                Ok(v) => Ok(PropertyDefinition::LastEditedTime(v)),
                Err(e) => Err(e),
            }
        } else if same_key(kind, "status") {
            match StatusProperty::from_json(json) {
                Ok(v) => Ok(PropertyDefinition::Status(v)),
                Err(e) => Err(e),
            }
        } else {
            Ok(PropertyDefinition::Null)
        }
    }
}

/// A database as it describes itself.
#[derive(Default, Debug, Hash)]
pub struct DatabaseDefinition {
    pub id: String,
    pub created_time: String,
    pub last_edited_time: String,
    pub properties: PropertyMap<PropertyDefinition>,
}

/// The mathematical value of a [`DatabaseDefinition`].
pub struct DatabaseModel {
    pub id: Seq<char>,
    pub created_time: Seq<char>,
    pub last_edited_time: Seq<char>,
    pub properties: Map<Seq<char>, PropertyDefinitionModel>,
}

impl View for DatabaseDefinition {
    type V = DatabaseModel;

    open spec fn view(&self) -> DatabaseModel {
        DatabaseModel {
            id: self.id@,
            created_time: self.created_time@,
            last_edited_time: self.last_edited_time@,
            properties: map_models(self.properties@),
        }
    }
}

impl JsonCodec for DatabaseDefinition {
    /// A database is written as an object that says first that it is one.
    open spec fn encoding(model: DatabaseModel) -> JsonModel {
        JsonModel::Object(
            Seq::empty().push(("object"@, JsonModel::Text("database"@))).push(
                ("id"@, String::encoding(model.id)),
            ).push(("created_time"@, String::encoding(model.created_time))).push(
                ("last_edited_time"@, String::encoding(model.last_edited_time)),
            ).push(("properties"@, map_encoding::<PropertyDefinition>(model.properties))),
        )
    }

    /// The member `object` is not asked for when a database is read.
    open spec fn decoding(json: JsonModel) -> Option<DatabaseModel> {
        let id = required::<String>(json, "id"@);
        let created_time = required::<String>(json, "created_time"@);
        let last_edited_time = required::<String>(json, "last_edited_time"@);
        let properties = match json.field("properties"@) {
            Some(value) => map_decoding::<PropertyDefinition>(value),
            None => None,
        };
        if id is Some && created_time is Some && last_edited_time is Some && properties is Some {
            Some(
                DatabaseModel {
                    id: id.unwrap(),
                    created_time: created_time.unwrap(),
                    last_edited_time: last_edited_time.unwrap(),
                    properties: properties.unwrap(),
                },
            )
        } else {
            None
        }
    }

    open spec fn refusal(json: JsonModel) -> Seq<char> {
        if required::<String>(json, "id"@) is None {
            required_refusal::<String>(json, "id"@)
        } else if required::<String>(json, "created_time"@) is None {
            required_refusal::<String>(json, "created_time"@)
        } else if required::<String>(json, "last_edited_time"@) is None {
            required_refusal::<String>(json, "last_edited_time"@)
        } else if json.field("properties"@) is None {
            missing("properties"@)
        } else {
            under(
                "properties"@,
                map_refusal::<PropertyDefinition>(json.field("properties"@).unwrap()),
            )
        }
    }

    fn to_json(&self) -> (json: Json) {
        let mut members = no_members();
        push_member(&mut members, "object", Json::text("database"));
        push_member(&mut members, "id", self.id.to_json());
        push_member(&mut members, "created_time", self.created_time.to_json());
        push_member(&mut members, "last_edited_time", self.last_edited_time.to_json());
        push_member(&mut members, "properties", encode_map(&self.properties));
        Json::object(members)
    }

    fn from_json(json: &Json) -> (value: Result<Self, DecodeError>) {
        let id = get_required::<String>(json, "id");
        let created_time = get_required::<String>(json, "created_time");
        let last_edited_time = get_required::<String>(json, "last_edited_time");
        let properties = match json.get("properties") {
            Some(value) => match decode_map::<PropertyDefinition>(value) {
                Ok(map) => Ok(map),
                Err(e) => Err(e.under("properties")),
            },
            None => Err(DecodeError::missing("properties")),
        };
        match (id, created_time, last_edited_time, properties) {
            (Ok(id), Ok(created_time), Ok(last_edited_time), Ok(properties)) => Ok(
                DatabaseDefinition { id, created_time, last_edited_time, properties },
            ),
            (Err(e), _, _, _) => Err(e),
            (_, Err(e), _, _) => Err(e),
            (_, _, Err(e), _) => Err(e),
            (_, _, _, Err(e)) => Err(e),
        }
    }
}

/// Two databases of which one has a property of a name that the other has
/// not do not hold the same list of properties. That list is what the two
/// are told apart by when they are compared or hashed field by field.
pub proof fn lemma_property_names_tell_apart(
    one: &DatabaseDefinition,
    other: &DatabaseDefinition,
    name: Seq<char>,
)
    requires
        one.properties@.contains_key(name),
        !other.properties@.contains_key(name),
    ensures
        one.properties.entries() != other.properties.entries(),
        one@.properties != other@.properties,
{
    assert(one@.properties.contains_key(name));
    assert(!other@.properties.contains_key(name));
}

} // verus!
