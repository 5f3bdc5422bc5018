//! The property kinds of a database and the values that a page gives them.

use vstd::prelude::*;
use crate::codec::{
    encode_list, get_optional, get_required, get_required_list, lemma_list_round_trip,
    lemma_lookup_with_optional, list_encoding, list_faithful, missing, models, no_members,
    option_model, optional, optional_refusal, push_optional, required, required_list,
    required_list_refusal, required_refusal, under, with_optional, DecodeError, JsonCodec,
    RoundTrip,
};
use crate::json::{lemma_lookup_push, push_member, Json, JsonModel};

verus! {

/// A status column of a database, with the options it offers.
#[derive(Default, Debug, Hash)]
pub struct StatusProperty {
    pub id: String,
    pub status: StatusInternal,
}

/// The mathematical value of a [`StatusProperty`].
pub struct StatusPropertyModel {
    pub id: Seq<char>,
    pub status: StatusInternalModel,
}

impl View for StatusProperty {
    type V = StatusPropertyModel;

    open spec fn view(&self) -> StatusPropertyModel {
        StatusPropertyModel {
            id: self.id@,
            status: self.status@,
        }
    }
}

impl JsonCodec for StatusProperty {
    open spec fn encoding(model: StatusPropertyModel) -> JsonModel {
        JsonModel::Object(
            Seq::empty()
                .push(("id"@, String::encoding(model.id)))
                .push(("status"@, StatusInternal::encoding(model.status))),
        )
    }

    open spec fn decoding(json: JsonModel) -> Option<StatusPropertyModel> {
        let id = required::<String>(json, "id"@);
        let status = required::<StatusInternal>(json, "status"@);
        if id is Some && status is Some {
            Some(StatusPropertyModel { id: id.unwrap(), status: status.unwrap() })
        } else {
            None
        }
    }

    open spec fn refusal(json: JsonModel) -> Seq<char> {
        if required::<String>(json, "id"@) is None {
            required_refusal::<String>(json, "id"@)
        } else {
            required_refusal::<StatusInternal>(json, "status"@)
        }
    }

    fn to_json(&self) -> (json: Json) {
        let mut members = no_members();
        push_member(&mut members, "id", self.id.to_json());
        push_member(&mut members, "status", self.status.to_json());
        Json::object(members)
    }

    fn from_json(json: &Json) -> (value: Result<Self, DecodeError>) {
        let id = get_required::<String>(json, "id");
        let status = get_required::<StatusInternal>(json, "status");
        match (id, status) {
            (Ok(id), Ok(status)) => Ok(StatusProperty { id, status }),
            (Err(e), _) => Err(e),
            (_, Err(e)) => Err(e),
        }
    }
}

impl RoundTrip for StatusProperty {
    open spec fn faithful(model: StatusPropertyModel) -> bool {
        String::faithful(model.id) && StatusInternal::faithful(model.status)
    }

    proof fn lemma_round_trip(model: StatusPropertyModel) {
        broadcast use lemma_lookup_push;

        reveal_strlit("id");
        assert("id"@.len() == 2);
        reveal_strlit("status");
        assert("status"@.len() == 6);
        String::lemma_round_trip(model.id);
        StatusInternal::lemma_round_trip(model.status);
    }
}

/// The options of a status column and the groups they stand in.
#[derive(Default, Debug, Hash)]
pub struct StatusInternal {
    pub options: Vec<StatusOption>,
    pub groups: Vec<StatusGroup>,
}

/// The mathematical value of a [`StatusInternal`].
pub struct StatusInternalModel {
    pub options: Seq<StatusOptionModel>,
    pub groups: Seq<StatusGroupModel>,
}

impl View for StatusInternal {
    type V = StatusInternalModel;

    open spec fn view(&self) -> StatusInternalModel {
        StatusInternalModel {
            options: models(self.options@),
            groups: models(self.groups@),
        }
    }
}

impl JsonCodec for StatusInternal {
    open spec fn encoding(model: StatusInternalModel) -> JsonModel {
        JsonModel::Object(
            Seq::empty()
                .push(("options"@, list_encoding::<StatusOption>(model.options)))
                .push(("groups"@, list_encoding::<StatusGroup>(model.groups))),
        )
    }

    open spec fn decoding(json: JsonModel) -> Option<StatusInternalModel> {
        let options = required_list::<StatusOption>(json, "options"@);
        let groups = required_list::<StatusGroup>(json, "groups"@);
        if options is Some && groups is Some {
            Some(StatusInternalModel { options: options.unwrap(), groups: groups.unwrap() })
        } else {
            None
        }
    }

    open spec fn refusal(json: JsonModel) -> Seq<char> {
        if required_list::<StatusOption>(json, "options"@) is None {
            required_list_refusal::<StatusOption>(json, "options"@)
        } else {
            required_list_refusal::<StatusGroup>(json, "groups"@)
        }
    }

    fn to_json(&self) -> (json: Json) {
        let mut members = no_members();
        push_member(&mut members, "options", encode_list(&self.options));
        push_member(&mut members, "groups", encode_list(&self.groups));
        Json::object(members)
    }

    fn from_json(json: &Json) -> (value: Result<Self, DecodeError>) {
        let options = get_required_list::<StatusOption>(json, "options");
        let groups = get_required_list::<StatusGroup>(json, "groups");
        match (options, groups) {
            (Ok(options), Ok(groups)) => Ok(StatusInternal { options, groups }),
            (Err(e), _) => Err(e),
            (_, Err(e)) => Err(e),
        }
    }
}

impl RoundTrip for StatusInternal {
    open spec fn faithful(model: StatusInternalModel) -> bool {
        list_faithful::<StatusOption>(model.options) && list_faithful::<StatusGroup>(model.groups)
    }

    proof fn lemma_round_trip(model: StatusInternalModel) {
        broadcast use lemma_lookup_push;

        reveal_strlit("options");
        assert("options"@.len() == 7);
        reveal_strlit("groups");
        assert("groups"@.len() == 6);
        lemma_list_round_trip::<StatusOption>(model.options);
        lemma_list_round_trip::<StatusGroup>(model.groups);
    }
}

/// The status that a page has, by the name of the option.
#[derive(Default, Debug, Hash)]
pub struct StatusValue {
    pub name: String,
}

impl View for StatusValue {
    type V = Seq<char>;

    open spec fn view(&self) -> Seq<char> {
        self.name@
    }
}

impl JsonCodec for StatusValue {
    open spec fn encoding(model: Seq<char>) -> JsonModel {
        JsonModel::Object(seq![("name"@, String::encoding(model))])
    }

    open spec fn decoding(json: JsonModel) -> Option<Seq<char>> {
        required::<String>(json, "name"@)
    }

    open spec fn refusal(json: JsonModel) -> Seq<char> {
        required_refusal::<String>(json, "name"@)
    }

    fn to_json(&self) -> (json: Json) {
        let mut members = no_members();
        push_member(&mut members, "name", self.name.to_json());
        Json::object(members)
    }

    fn from_json(json: &Json) -> (value: Result<Self, DecodeError>) {
        match get_required::<String>(json, "name") {
            Ok(name) => Ok(StatusValue { name }),
            Err(e) => Err(e),
        }
    }
}

impl RoundTrip for StatusValue {
    open spec fn faithful(model: Seq<char>) -> bool {
        true
    }

    proof fn lemma_round_trip(model: Seq<char>) {
        broadcast use lemma_lookup_push;

    }
}

/// One option of a status column.
#[derive(Default, Debug, Hash)]
pub struct StatusOption {
    pub id: String,
    pub name: String,
    pub color: String,
}

/// The mathematical value of a [`StatusOption`].
pub struct StatusOptionModel {
    pub id: Seq<char>,
    pub name: Seq<char>,
    pub color: Seq<char>,
}

impl View for StatusOption {
    type V = StatusOptionModel;

    open spec fn view(&self) -> StatusOptionModel {
        StatusOptionModel {
            id: self.id@,
            name: self.name@,
            color: self.color@,
        }
    }
}

impl JsonCodec for StatusOption {
    open spec fn encoding(model: StatusOptionModel) -> JsonModel {
        JsonModel::Object(
            Seq::empty()
                .push(("id"@, String::encoding(model.id)))
                .push(("name"@, String::encoding(model.name)))
                .push(("color"@, String::encoding(model.color))),
        )
    }

    open spec fn decoding(json: JsonModel) -> Option<StatusOptionModel> {
        let id = required::<String>(json, "id"@);
        let name = required::<String>(json, "name"@);
        let color = required::<String>(json, "color"@);
        if id is Some && name is Some && color is Some {
            Some(StatusOptionModel { id: id.unwrap(), name: name.unwrap(), color: color.unwrap() })
        } else {
            None
        }
    }

    open spec fn refusal(json: JsonModel) -> Seq<char> {
        if required::<String>(json, "id"@) is None {
            required_refusal::<String>(json, "id"@)
        } else if required::<String>(json, "name"@) is None {
            required_refusal::<String>(json, "name"@)
        } else {
            required_refusal::<String>(json, "color"@)
        }
    }

    fn to_json(&self) -> (json: Json) {
        let mut members = no_members();
        push_member(&mut members, "id", self.id.to_json());
        push_member(&mut members, "name", self.name.to_json());
        push_member(&mut members, "color", self.color.to_json());
        Json::object(members)
    }

    fn from_json(json: &Json) -> (value: Result<Self, DecodeError>) {
        let id = get_required::<String>(json, "id");
        let name = get_required::<String>(json, "name");
        let color = get_required::<String>(json, "color");
        match (id, name, color) {
            (Ok(id), Ok(name), Ok(color)) => Ok(StatusOption { id, name, color }),
            (Err(e), _, _) => Err(e),
            (_, Err(e), _) => Err(e),
            (_, _, Err(e)) => Err(e),
        }
    }
}

impl RoundTrip for StatusOption {
    open spec fn faithful(model: StatusOptionModel) -> bool {
        String::faithful(model.id) && String::faithful(model.name) && String::faithful(model.color)
    }

    proof fn lemma_round_trip(model: StatusOptionModel) {
        broadcast use lemma_lookup_push;

        reveal_strlit("id");
        assert("id"@.len() == 2);
        reveal_strlit("name");
        assert("name"@.len() == 4);
        reveal_strlit("color");
        assert("color"@.len() == 5);
        String::lemma_round_trip(model.id);
        String::lemma_round_trip(model.name);
        String::lemma_round_trip(model.color);
    }
}

/// One group of options of a status column.
#[derive(Default, Debug, Hash)]
pub struct StatusGroup {
    pub id: String,
    pub name: String,
    pub color: String,
    pub option_ids: Vec<String>,
}

/// The mathematical value of a [`StatusGroup`].
pub struct StatusGroupModel {
    pub id: Seq<char>,
    pub name: Seq<char>,
    pub color: Seq<char>,
    pub option_ids: Seq<Seq<char>>,
}

impl View for StatusGroup {
    type V = StatusGroupModel;

    open spec fn view(&self) -> StatusGroupModel {
        StatusGroupModel {
            id: self.id@,
            name: self.name@,
            color: self.color@,
            option_ids: models(self.option_ids@),
        }
    }
}

impl JsonCodec for StatusGroup {
    open spec fn encoding(model: StatusGroupModel) -> JsonModel {
        JsonModel::Object(
            Seq::empty()
                .push(("id"@, String::encoding(model.id)))
                .push(("name"@, String::encoding(model.name)))
                .push(("color"@, String::encoding(model.color)))
                .push(("option_ids"@, list_encoding::<String>(model.option_ids))),
        )
    }

    open spec fn decoding(json: JsonModel) -> Option<StatusGroupModel> {
        let id = required::<String>(json, "id"@);
        let name = required::<String>(json, "name"@);
        let color = required::<String>(json, "color"@);
        let option_ids = required_list::<String>(json, "option_ids"@);
        if id is Some && name is Some && color is Some && option_ids is Some {
            Some(StatusGroupModel { id: id.unwrap(), name: name.unwrap(), color: color.unwrap(), option_ids: option_ids.unwrap() })
        } else {
            None
        }
    }

    open spec fn refusal(json: JsonModel) -> Seq<char> {
        if required::<String>(json, "id"@) is None {
            required_refusal::<String>(json, "id"@)
        } else if required::<String>(json, "name"@) is None {
            required_refusal::<String>(json, "name"@)
        } else if required::<String>(json, "color"@) is None {
            required_refusal::<String>(json, "color"@)
        } else {
            required_list_refusal::<String>(json, "option_ids"@)
        }
    }

    fn to_json(&self) -> (json: Json) {
        let mut members = no_members();
        push_member(&mut members, "id", self.id.to_json());
        push_member(&mut members, "name", self.name.to_json());
        push_member(&mut members, "color", self.color.to_json());
        push_member(&mut members, "option_ids", encode_list(&self.option_ids));
        Json::object(members)
    }

    fn from_json(json: &Json) -> (value: Result<Self, DecodeError>) {
        let id = get_required::<String>(json, "id");
        let name = get_required::<String>(json, "name");
        let color = get_required::<String>(json, "color");
        let option_ids = get_required_list::<String>(json, "option_ids");
        match (id, name, color, option_ids) {
            (Ok(id), Ok(name), Ok(color), Ok(option_ids)) => Ok(StatusGroup { id, name, color, option_ids }),
            (Err(e), _, _, _) => Err(e),
            (_, Err(e), _, _) => Err(e),
            (_, _, Err(e), _) => Err(e),
            (_, _, _, Err(e)) => Err(e),
        }
    }
}

impl RoundTrip for StatusGroup {
    open spec fn faithful(model: StatusGroupModel) -> bool {
        String::faithful(model.id) && String::faithful(model.name) && String::faithful(model.color) && list_faithful::<String>(model.option_ids)
    }

    proof fn lemma_round_trip(model: StatusGroupModel) {
        broadcast use lemma_lookup_push;

        reveal_strlit("id");
        assert("id"@.len() == 2);
        reveal_strlit("name");
        assert("name"@.len() == 4);
        reveal_strlit("color");
        assert("color"@.len() == 5);
        reveal_strlit("option_ids");
        assert("option_ids"@.len() == 10);
        String::lemma_round_trip(model.id);
        String::lemma_round_trip(model.name);
        String::lemma_round_trip(model.color);
        lemma_list_round_trip::<String>(model.option_ids);
    }
}

/// A column that shows when a page was created.
#[derive(Default, Debug, Hash)]
pub struct CreatedTimeProperty {
    pub id: String,
    pub created_time: CreatedTimeInternal,
}

impl View for CreatedTimeProperty {
    type V = Seq<char>;

    open spec fn view(&self) -> Seq<char> {
        self.id@
    }
}

impl JsonCodec for CreatedTimeProperty {
    open spec fn encoding(model: Seq<char>) -> JsonModel {
        JsonModel::Object(
            Seq::empty()
                .push(("id"@, String::encoding(model)))
                .push(("created_time"@, CreatedTimeInternal::encoding(()))),
        )
    }

    open spec fn decoding(json: JsonModel) -> Option<Seq<char>> {
        if required::<CreatedTimeInternal>(json, "created_time"@) is Some {
            required::<String>(json, "id"@)
        } else {
            None
        }
    }

    open spec fn refusal(json: JsonModel) -> Seq<char> {
        if required::<String>(json, "id"@) is None {
            required_refusal::<String>(json, "id"@)
        } else {
            required_refusal::<CreatedTimeInternal>(json, "created_time"@)
        }
    }

    fn to_json(&self) -> (json: Json) {
        let mut members = no_members();
        push_member(&mut members, "id", self.id.to_json());
        push_member(&mut members, "created_time", self.created_time.to_json());
        Json::object(members)
    }

    fn from_json(json: &Json) -> (value: Result<Self, DecodeError>) {
        let id = get_required::<String>(json, "id");
        let created_time = get_required::<CreatedTimeInternal>(json, "created_time");
        match (id, created_time) {
            (Ok(id), Ok(created_time)) => Ok(CreatedTimeProperty { id, created_time }),
            (Err(e), _) => Err(e),
            (_, Err(e)) => Err(e),
        }
    }
}

impl RoundTrip for CreatedTimeProperty {
    open spec fn faithful(model: Seq<char>) -> bool {
        true
    }

    proof fn lemma_round_trip(model: Seq<char>) {
        broadcast use lemma_lookup_push;

        reveal_strlit("id");
        reveal_strlit("created_time");
        assert("id"@.len() == 2 && "created_time"@.len() == 12);
    }
}

/// The settings of a creation-time column: there are none.
#[derive(Default, Debug, Hash)]
pub struct CreatedTimeInternal {}

impl View for CreatedTimeInternal {
    type V = ();

    open spec fn view(&self) -> () {
        ()
    }
}

impl JsonCodec for CreatedTimeInternal {
    open spec fn encoding(model: ()) -> JsonModel {
        JsonModel::Object(Seq::empty())
    }

    open spec fn decoding(json: JsonModel) -> Option<()> {
        if json is Object {
            Some(())
        } else {
            None
        }
    }

    open spec fn refusal(json: JsonModel) -> Seq<char> {
        "not an object"@
    }

    fn to_json(&self) -> (json: Json) {
        Json::object(no_members())
    }

    fn from_json(json: &Json) -> (value: Result<Self, DecodeError>) {
        match json.as_object() {
            Some(_) => Ok(CreatedTimeInternal {}),
            None => Err(DecodeError::new("not an object")),
        }
    }
}

impl RoundTrip for CreatedTimeInternal {
    open spec fn faithful(model: ()) -> bool {
        true
    }

    proof fn lemma_round_trip(model: ()) {
    }
}

/// The instant at which a page was created.
#[derive(Default, Debug, Hash)]
pub struct CreatedTimeValue {
    pub created_time: String,
}

impl View for CreatedTimeValue {
    type V = Seq<char>;

    open spec fn view(&self) -> Seq<char> {
        self.created_time@
    }
}

impl JsonCodec for CreatedTimeValue {
    open spec fn encoding(model: Seq<char>) -> JsonModel {
        JsonModel::Object(seq![("created_time"@, String::encoding(model))])
    }

    open spec fn decoding(json: JsonModel) -> Option<Seq<char>> {
        required::<String>(json, "created_time"@)
    }

    open spec fn refusal(json: JsonModel) -> Seq<char> {
        required_refusal::<String>(json, "created_time"@)
    }

    fn to_json(&self) -> (json: Json) {
        let mut members = no_members();
        push_member(&mut members, "created_time", self.created_time.to_json());
        Json::object(members)
    }

    fn from_json(json: &Json) -> (value: Result<Self, DecodeError>) {
        match get_required::<String>(json, "created_time") {
            Ok(created_time) => Ok(CreatedTimeValue { created_time }),
            Err(e) => Err(e),
        }
    }
}

impl RoundTrip for CreatedTimeValue {
    open spec fn faithful(model: Seq<char>) -> bool {
        true
    }

    proof fn lemma_round_trip(model: Seq<char>) {
        broadcast use lemma_lookup_push;

    }
}

/// A column that shows who created a page.
#[derive(Default, Debug, Hash)]
pub struct CreatedByProperty {
    pub id: String,
    pub created_by: CreatedByInternal,
}

impl View for CreatedByProperty {
    type V = Seq<char>;

    open spec fn view(&self) -> Seq<char> {
        self.id@
    }
}

impl JsonCodec for CreatedByProperty {
    open spec fn encoding(model: Seq<char>) -> JsonModel {
        JsonModel::Object(
            Seq::empty()
                .push(("id"@, String::encoding(model)))
                .push(("created_by"@, CreatedByInternal::encoding(()))),
        )
    }

    open spec fn decoding(json: JsonModel) -> Option<Seq<char>> {
        if required::<CreatedByInternal>(json, "created_by"@) is Some {
            required::<String>(json, "id"@)
        } else {
            None
        }
    }

    open spec fn refusal(json: JsonModel) -> Seq<char> {
        if required::<String>(json, "id"@) is None {
            required_refusal::<String>(json, "id"@)
        } else {
            required_refusal::<CreatedByInternal>(json, "created_by"@)
        }
    }

    fn to_json(&self) -> (json: Json) {
        let mut members = no_members();
        push_member(&mut members, "id", self.id.to_json());
        push_member(&mut members, "created_by", self.created_by.to_json());
        Json::object(members)
    }

    fn from_json(json: &Json) -> (value: Result<Self, DecodeError>) {
        let id = get_required::<String>(json, "id");
        let created_by = get_required::<CreatedByInternal>(json, "created_by");
        match (id, created_by) {
            (Ok(id), Ok(created_by)) => Ok(CreatedByProperty { id, created_by }),
            (Err(e), _) => Err(e),
            (_, Err(e)) => Err(e),
        }
    }
}

impl RoundTrip for CreatedByProperty {
    open spec fn faithful(model: Seq<char>) -> bool {
        true
    }

    proof fn lemma_round_trip(model: Seq<char>) {
        broadcast use lemma_lookup_push;

        reveal_strlit("id");
        reveal_strlit("created_by");
        assert("id"@.len() == 2 && "created_by"@.len() == 10);
    }
}

/// The settings of a created-by column: there are none.
#[derive(Default, Debug, Hash)]
pub struct CreatedByInternal {}

impl View for CreatedByInternal {
    type V = ();

    open spec fn view(&self) -> () {
        ()
    }
}

impl JsonCodec for CreatedByInternal {
    open spec fn encoding(model: ()) -> JsonModel {
        JsonModel::Object(Seq::empty())
    }

    open spec fn decoding(json: JsonModel) -> Option<()> {
        if json is Object {
            Some(())
        } else {
            None
        }
    }

    open spec fn refusal(json: JsonModel) -> Seq<char> {
        "not an object"@
    }

    fn to_json(&self) -> (json: Json) {
        Json::object(no_members())
    }

    fn from_json(json: &Json) -> (value: Result<Self, DecodeError>) {
        match json.as_object() {
            Some(_) => Ok(CreatedByInternal {}),
            None => Err(DecodeError::new("not an object")),
        }
    }
}

impl RoundTrip for CreatedByInternal {
    open spec fn faithful(model: ()) -> bool {
        true
    }

    proof fn lemma_round_trip(model: ()) {
    }
}

/// A column that shows who last edited a page.
#[derive(Default, Debug, Hash)]
pub struct LastEditedByProperty {
    pub id: String,
    pub last_edited_by: LastEditedByInternal,
}

impl View for LastEditedByProperty {
    type V = Seq<char>;

    open spec fn view(&self) -> Seq<char> {
        self.id@
    }
}

impl JsonCodec for LastEditedByProperty {
    open spec fn encoding(model: Seq<char>) -> JsonModel {
        JsonModel::Object(
            Seq::empty()
                .push(("id"@, String::encoding(model)))
                .push(("last_edited_by"@, LastEditedByInternal::encoding(()))),
        )
    }

    open spec fn decoding(json: JsonModel) -> Option<Seq<char>> {
        if required::<LastEditedByInternal>(json, "last_edited_by"@) is Some {
            required::<String>(json, "id"@)
        } else {
            None
        }
    }

    open spec fn refusal(json: JsonModel) -> Seq<char> {
        if required::<String>(json, "id"@) is None {
            required_refusal::<String>(json, "id"@)
        } else {
            required_refusal::<LastEditedByInternal>(json, "last_edited_by"@)
        }
    }

    fn to_json(&self) -> (json: Json) {
        let mut members = no_members();
        push_member(&mut members, "id", self.id.to_json());
        push_member(&mut members, "last_edited_by", self.last_edited_by.to_json());
        Json::object(members)
    }

    fn from_json(json: &Json) -> (value: Result<Self, DecodeError>) {
        let id = get_required::<String>(json, "id");
        let last_edited_by = get_required::<LastEditedByInternal>(json, "last_edited_by");
        match (id, last_edited_by) {
            (Ok(id), Ok(last_edited_by)) => Ok(LastEditedByProperty { id, last_edited_by }),
            (Err(e), _) => Err(e),
            (_, Err(e)) => Err(e),
        }
    }
}

impl RoundTrip for LastEditedByProperty {
    open spec fn faithful(model: Seq<char>) -> bool {
        true
    }

    proof fn lemma_round_trip(model: Seq<char>) {
        broadcast use lemma_lookup_push;

        reveal_strlit("id");
        reveal_strlit("last_edited_by");
        assert("id"@.len() == 2 && "last_edited_by"@.len() == 14);
    }
}

/// The settings of a last-edited-by column: there are none.
#[derive(Default, Debug, Hash)]
pub struct LastEditedByInternal {}

impl View for LastEditedByInternal {
    type V = ();

    open spec fn view(&self) -> () {
        ()
    }
}

impl JsonCodec for LastEditedByInternal {
    open spec fn encoding(model: ()) -> JsonModel {
        JsonModel::Object(Seq::empty())
    }

    open spec fn decoding(json: JsonModel) -> Option<()> {
        if json is Object {
            Some(())
        } else {
            None
        }
    }

    open spec fn refusal(json: JsonModel) -> Seq<char> {
        "not an object"@
    }

    fn to_json(&self) -> (json: Json) {
        Json::object(no_members())
    }

    fn from_json(json: &Json) -> (value: Result<Self, DecodeError>) {
        match json.as_object() {
            Some(_) => Ok(LastEditedByInternal {}),
            None => Err(DecodeError::new("not an object")),
        }
    }
}

impl RoundTrip for LastEditedByInternal {
    open spec fn faithful(model: ()) -> bool {
        true
    }

    proof fn lemma_round_trip(model: ()) {
    }
}

/// A column that shows when a page was last edited.
#[derive(Default, Debug, Hash)]
pub struct LastEditedTimeProperty {
    pub id: String,
    pub last_edited_time: LastEditedTimeInternal,
}

impl View for LastEditedTimeProperty {
    type V = Seq<char>;

    open spec fn view(&self) -> Seq<char> {
        self.id@
    }
}

impl JsonCodec for LastEditedTimeProperty {
    open spec fn encoding(model: Seq<char>) -> JsonModel {
        JsonModel::Object(
            Seq::empty()
                .push(("id"@, String::encoding(model)))
                .push(("last_edited_time"@, LastEditedTimeInternal::encoding(()))),
        )
    }

    open spec fn decoding(json: JsonModel) -> Option<Seq<char>> {
        if required::<LastEditedTimeInternal>(json, "last_edited_time"@) is Some {
            required::<String>(json, "id"@)
        } else {
            None
        }
    }

    open spec fn refusal(json: JsonModel) -> Seq<char> {
        if required::<String>(json, "id"@) is None {
            required_refusal::<String>(json, "id"@)
        } else {
            required_refusal::<LastEditedTimeInternal>(json, "last_edited_time"@)
        }
    }

    fn to_json(&self) -> (json: Json) {
        let mut members = no_members();
        push_member(&mut members, "id", self.id.to_json());
        push_member(&mut members, "last_edited_time", self.last_edited_time.to_json());
        Json::object(members)
    }

    fn from_json(json: &Json) -> (value: Result<Self, DecodeError>) {
        let id = get_required::<String>(json, "id");
        let last_edited_time = get_required::<LastEditedTimeInternal>(json, "last_edited_time");
        match (id, last_edited_time) {
            (Ok(id), Ok(last_edited_time)) => Ok(LastEditedTimeProperty { id, last_edited_time }),
            (Err(e), _) => Err(e),
            (_, Err(e)) => Err(e),
        }
    }
}

impl RoundTrip for LastEditedTimeProperty {
    open spec fn faithful(model: Seq<char>) -> bool {
        true
    }

    proof fn lemma_round_trip(model: Seq<char>) {
        broadcast use lemma_lookup_push;

        reveal_strlit("id");
        reveal_strlit("last_edited_time");
        assert("id"@.len() == 2 && "last_edited_time"@.len() == 16);
    }
}

/// The settings of a last-edited-time column: there are none.
#[derive(Default, Debug, Hash)]
pub struct LastEditedTimeInternal {}

impl View for LastEditedTimeInternal {
    type V = ();

    open spec fn view(&self) -> () {
        ()
    }
}

impl JsonCodec for LastEditedTimeInternal {
    open spec fn encoding(model: ()) -> JsonModel {
        JsonModel::Object(Seq::empty())
    }

    open spec fn decoding(json: JsonModel) -> Option<()> {
        if json is Object {
            Some(())
        } else {
            None
        }
    }

    open spec fn refusal(json: JsonModel) -> Seq<char> {
        "not an object"@
    }

    fn to_json(&self) -> (json: Json) {
        Json::object(no_members())
    }

    fn from_json(json: &Json) -> (value: Result<Self, DecodeError>) {
        match json.as_object() {
            Some(_) => Ok(LastEditedTimeInternal {}),
            None => Err(DecodeError::new("not an object")),
        }
    }
}

impl RoundTrip for LastEditedTimeInternal {
    open spec fn faithful(model: ()) -> bool {
        true
    }

    proof fn lemma_round_trip(model: ()) {
    }
}

/// A column in which a page picks one option.
#[derive(Default, Debug, Hash)]
pub struct SelectProperty {
    pub id: String,
    pub select: SelectInternal,
}

impl View for SelectProperty {
    type V = Seq<char>;

    open spec fn view(&self) -> Seq<char> {
        self.id@
    }
}

impl JsonCodec for SelectProperty {
    open spec fn encoding(model: Seq<char>) -> JsonModel {
        JsonModel::Object(
            Seq::empty()
                .push(("id"@, String::encoding(model)))
                .push(("select"@, SelectInternal::encoding(()))),
        )
    }

    open spec fn decoding(json: JsonModel) -> Option<Seq<char>> {
        if required::<SelectInternal>(json, "select"@) is Some {
            required::<String>(json, "id"@)
        } else {
            None
        }
    }

    open spec fn refusal(json: JsonModel) -> Seq<char> {
        if required::<String>(json, "id"@) is None {
            required_refusal::<String>(json, "id"@)
        } else {
            required_refusal::<SelectInternal>(json, "select"@)
        }
    }

    fn to_json(&self) -> (json: Json) {
        let mut members = no_members();
        push_member(&mut members, "id", self.id.to_json());
        push_member(&mut members, "select", self.select.to_json());
        Json::object(members)
    }

    fn from_json(json: &Json) -> (value: Result<Self, DecodeError>) {
        let id = get_required::<String>(json, "id");
        let select = get_required::<SelectInternal>(json, "select");
        match (id, select) {
            (Ok(id), Ok(select)) => Ok(SelectProperty { id, select }),
            (Err(e), _) => Err(e),
            (_, Err(e)) => Err(e),
        }
    }
}

impl RoundTrip for SelectProperty {
    open spec fn faithful(model: Seq<char>) -> bool {
        true
    }

    proof fn lemma_round_trip(model: Seq<char>) {
        broadcast use lemma_lookup_push;

        reveal_strlit("id");
        reveal_strlit("select");
        assert("id"@.len() == 2 && "select"@.len() == 6);
    }
}

/// The settings of a select column. The options it offers are not kept.
#[derive(Default, Debug, Hash)]
pub struct SelectInternal {}

impl View for SelectInternal {
    type V = ();

    open spec fn view(&self) -> () {
        ()
    }
}

impl JsonCodec for SelectInternal {
    open spec fn encoding(model: ()) -> JsonModel {
        JsonModel::Object(Seq::empty())
    }

    open spec fn decoding(json: JsonModel) -> Option<()> {
        if json is Object {
            Some(())
        } else {
            None
        }
    }

    open spec fn refusal(json: JsonModel) -> Seq<char> {
        "not an object"@
    }

    fn to_json(&self) -> (json: Json) {
        Json::object(no_members())
    }

    fn from_json(json: &Json) -> (value: Result<Self, DecodeError>) {
        match json.as_object() {
            Some(_) => Ok(SelectInternal {}),
            None => Err(DecodeError::new("not an object")),
        }
    }
}

impl RoundTrip for SelectInternal {
    open spec fn faithful(model: ()) -> bool {
        true
    }

    proof fn lemma_round_trip(model: ()) {
    }
}

/// The option that a page picks in a select column.
#[derive(Default, Debug)]
pub struct SelectValue {
    pub select: SelectValueInternal,
}

impl View for SelectValue {
    type V = Seq<char>;

    open spec fn view(&self) -> Seq<char> {
        self.select@
    }
}

impl JsonCodec for SelectValue {
    open spec fn encoding(model: Seq<char>) -> JsonModel {
        JsonModel::Object(seq![("select"@, SelectValueInternal::encoding(model))])
    }

    open spec fn decoding(json: JsonModel) -> Option<Seq<char>> {
        required::<SelectValueInternal>(json, "select"@)
    }

    open spec fn refusal(json: JsonModel) -> Seq<char> {
        required_refusal::<SelectValueInternal>(json, "select"@)
    }

    fn to_json(&self) -> (json: Json) {
        let mut members = no_members();
        push_member(&mut members, "select", self.select.to_json());
        Json::object(members)
    }

    fn from_json(json: &Json) -> (value: Result<Self, DecodeError>) {
        match get_required::<SelectValueInternal>(json, "select") {
            Ok(select) => Ok(SelectValue { select }),
            Err(e) => Err(e),
        }
    }
}

impl RoundTrip for SelectValue {
    open spec fn faithful(model: Seq<char>) -> bool {
        SelectValueInternal::faithful(model)
    }

    proof fn lemma_round_trip(model: Seq<char>) {
        broadcast use lemma_lookup_push;

        SelectValueInternal::lemma_round_trip(model);
    }
}

/// An option of a select column, by its name.
#[derive(Default, Debug)]
pub struct SelectValueInternal {
    pub name: String,
}

impl View for SelectValueInternal {
    type V = Seq<char>;

    open spec fn view(&self) -> Seq<char> {
        self.name@
    }
}

impl JsonCodec for SelectValueInternal {
    open spec fn encoding(model: Seq<char>) -> JsonModel {
        JsonModel::Object(seq![("name"@, String::encoding(model))])
    }

    open spec fn decoding(json: JsonModel) -> Option<Seq<char>> {
        required::<String>(json, "name"@)
    }

    open spec fn refusal(json: JsonModel) -> Seq<char> {
        required_refusal::<String>(json, "name"@)
    }

    fn to_json(&self) -> (json: Json) {
        let mut members = no_members();
        push_member(&mut members, "name", self.name.to_json());
        Json::object(members)
    }

    fn from_json(json: &Json) -> (value: Result<Self, DecodeError>) {
        match get_required::<String>(json, "name") {
            Ok(name) => Ok(SelectValueInternal { name }),
            Err(e) => Err(e),
        }
    }
}

impl RoundTrip for SelectValueInternal {
    open spec fn faithful(model: Seq<char>) -> bool {
        true
    }

    proof fn lemma_round_trip(model: Seq<char>) {
        broadcast use lemma_lookup_push;

    }
}

/// A column that holds people.
#[derive(Default, Debug, Hash)]
pub struct PeopleProperty {
    pub id: String,
    pub people: PeopleInternal,
}

impl View for PeopleProperty {
    type V = Seq<char>;

    open spec fn view(&self) -> Seq<char> {
        self.id@
    }
}

impl JsonCodec for PeopleProperty {
    open spec fn encoding(model: Seq<char>) -> JsonModel {
        JsonModel::Object(
            Seq::empty()
                .push(("id"@, String::encoding(model)))
                .push(("people"@, PeopleInternal::encoding(()))),
        )
    }

    open spec fn decoding(json: JsonModel) -> Option<Seq<char>> {
        if required::<PeopleInternal>(json, "people"@) is Some {
            required::<String>(json, "id"@)
        } else {
            None
        }
    }

    open spec fn refusal(json: JsonModel) -> Seq<char> {
        if required::<String>(json, "id"@) is None {
            required_refusal::<String>(json, "id"@)
        } else {
            required_refusal::<PeopleInternal>(json, "people"@)
        }
    }

    fn to_json(&self) -> (json: Json) {
        let mut members = no_members();
        push_member(&mut members, "id", self.id.to_json());
        push_member(&mut members, "people", self.people.to_json());
        Json::object(members)
    }

    fn from_json(json: &Json) -> (value: Result<Self, DecodeError>) {
        let id = get_required::<String>(json, "id");
        let people = get_required::<PeopleInternal>(json, "people");
        match (id, people) {
            (Ok(id), Ok(people)) => Ok(PeopleProperty { id, people }),
            (Err(e), _) => Err(e),
            (_, Err(e)) => Err(e),
        }
    }
}

impl RoundTrip for PeopleProperty {
    open spec fn faithful(model: Seq<char>) -> bool {
        true
    }

    proof fn lemma_round_trip(model: Seq<char>) {
        broadcast use lemma_lookup_push;

        reveal_strlit("id");
        reveal_strlit("people");
        assert("id"@.len() == 2 && "people"@.len() == 6);
    }
}

/// The settings of a people column: there are none.
#[derive(Default, Debug, Hash)]
pub struct PeopleInternal {}

impl View for PeopleInternal {
    type V = ();

    open spec fn view(&self) -> () {
        ()
    }
}

impl JsonCodec for PeopleInternal {
    open spec fn encoding(model: ()) -> JsonModel {
        JsonModel::Object(Seq::empty())
    }

    open spec fn decoding(json: JsonModel) -> Option<()> {
        if json is Object {
            Some(())
        } else {
            None
        }
    }

    open spec fn refusal(json: JsonModel) -> Seq<char> {
        "not an object"@
    }

    fn to_json(&self) -> (json: Json) {
        Json::object(no_members())
    }

    fn from_json(json: &Json) -> (value: Result<Self, DecodeError>) {
        match json.as_object() {
            Some(_) => Ok(PeopleInternal {}),
            None => Err(DecodeError::new("not an object")),
        }
    }
}

impl RoundTrip for PeopleInternal {
    open spec fn faithful(model: ()) -> bool {
        true
    }

    proof fn lemma_round_trip(model: ()) {
    }
}

/// A column in which a page picks any number of options.
#[derive(Default, Debug, Hash)]
pub struct MultiSelectProperty {
    pub id: String,
    pub multi_select: MultiSelectInternal,
}

impl View for MultiSelectProperty {
    type V = Seq<char>;

    open spec fn view(&self) -> Seq<char> {
        self.id@
    }
}

impl JsonCodec for MultiSelectProperty {
    open spec fn encoding(model: Seq<char>) -> JsonModel {
        JsonModel::Object(
            Seq::empty()
                .push(("id"@, String::encoding(model)))
                .push(("multi_select"@, MultiSelectInternal::encoding(()))),
        )
    }

    open spec fn decoding(json: JsonModel) -> Option<Seq<char>> {
        if required::<MultiSelectInternal>(json, "multi_select"@) is Some {
            required::<String>(json, "id"@)
        } else {
            None
        }
    }

    open spec fn refusal(json: JsonModel) -> Seq<char> {
        if required::<String>(json, "id"@) is None {
            required_refusal::<String>(json, "id"@)
        } else {
            required_refusal::<MultiSelectInternal>(json, "multi_select"@)
        }
    }

    fn to_json(&self) -> (json: Json) {
        let mut members = no_members();
        push_member(&mut members, "id", self.id.to_json());
        push_member(&mut members, "multi_select", self.multi_select.to_json());
        Json::object(members)
    }

    fn from_json(json: &Json) -> (value: Result<Self, DecodeError>) {
        let id = get_required::<String>(json, "id");
        let multi_select = get_required::<MultiSelectInternal>(json, "multi_select");
        match (id, multi_select) {
            (Ok(id), Ok(multi_select)) => Ok(MultiSelectProperty { id, multi_select }),
            (Err(e), _) => Err(e),
            (_, Err(e)) => Err(e),
        }
    }
}

impl RoundTrip for MultiSelectProperty {
    open spec fn faithful(model: Seq<char>) -> bool {
        true
    }

    proof fn lemma_round_trip(model: Seq<char>) {
        broadcast use lemma_lookup_push;

        reveal_strlit("id");
        reveal_strlit("multi_select");
        assert("id"@.len() == 2 && "multi_select"@.len() == 12);
    }
}

/// The settings of a multi-select column. The options it offers are not kept.
#[derive(Default, Debug, Hash)]
pub struct MultiSelectInternal {}

impl View for MultiSelectInternal {
    type V = ();

    open spec fn view(&self) -> () {
        ()
    }
}

impl JsonCodec for MultiSelectInternal {
    open spec fn encoding(model: ()) -> JsonModel {
        JsonModel::Object(Seq::empty())
    }

    open spec fn decoding(json: JsonModel) -> Option<()> {
        if json is Object {
            Some(())
        } else {
            None
        }
    }

    open spec fn refusal(json: JsonModel) -> Seq<char> {
        "not an object"@
    }

    fn to_json(&self) -> (json: Json) {
        Json::object(no_members())
    }

    fn from_json(json: &Json) -> (value: Result<Self, DecodeError>) {
        match json.as_object() {
            Some(_) => Ok(MultiSelectInternal {}),
            None => Err(DecodeError::new("not an object")),
        }
    }
}

impl RoundTrip for MultiSelectInternal {
    open spec fn faithful(model: ()) -> bool {
        true
    }

    proof fn lemma_round_trip(model: ()) {
    }
}

/// The options that a page picks in a multi-select column, in order.
#[derive(Default, Debug)]
pub struct MultiSelectValue {
    pub multi_select: Vec<MultiSelectValueInternal>,
}

impl View for MultiSelectValue {
    type V = Seq<Seq<char>>;

    open spec fn view(&self) -> Seq<Seq<char>> {
        models(self.multi_select@)
    }
}

impl JsonCodec for MultiSelectValue {
    open spec fn encoding(model: Seq<Seq<char>>) -> JsonModel {
        JsonModel::Object(seq![("multi_select"@, list_encoding::<MultiSelectValueInternal>(model))])
    }

    open spec fn decoding(json: JsonModel) -> Option<Seq<Seq<char>>> {
        required_list::<MultiSelectValueInternal>(json, "multi_select"@)
    }

    open spec fn refusal(json: JsonModel) -> Seq<char> {
        required_list_refusal::<MultiSelectValueInternal>(json, "multi_select"@)
    }

    fn to_json(&self) -> (json: Json) {
        let mut members = no_members();
        push_member(&mut members, "multi_select", encode_list(&self.multi_select));
        Json::object(members)
    }

    fn from_json(json: &Json) -> (value: Result<Self, DecodeError>) {
        match get_required_list::<MultiSelectValueInternal>(json, "multi_select") {
            Ok(multi_select) => Ok(MultiSelectValue { multi_select }),
            Err(e) => Err(e),
        }
    }
}

impl RoundTrip for MultiSelectValue {
    open spec fn faithful(model: Seq<Seq<char>>) -> bool {
        list_faithful::<MultiSelectValueInternal>(model)
    }

    proof fn lemma_round_trip(model: Seq<Seq<char>>) {
        broadcast use lemma_lookup_push;

        lemma_list_round_trip::<MultiSelectValueInternal>(model);
    }
}

/// An option of a multi-select column, by its name.
#[derive(Default, Debug)]
pub struct MultiSelectValueInternal {
    pub name: String,
}

impl View for MultiSelectValueInternal {
    type V = Seq<char>;

    open spec fn view(&self) -> Seq<char> {
        self.name@
    }
}

impl JsonCodec for MultiSelectValueInternal {
    open spec fn encoding(model: Seq<char>) -> JsonModel {
        JsonModel::Object(seq![("name"@, String::encoding(model))])
    }

    open spec fn decoding(json: JsonModel) -> Option<Seq<char>> {
        required::<String>(json, "name"@)
    }

    open spec fn refusal(json: JsonModel) -> Seq<char> {
        required_refusal::<String>(json, "name"@)
    }

    fn to_json(&self) -> (json: Json) {
        let mut members = no_members();
        push_member(&mut members, "name", self.name.to_json());
        Json::object(members)
    }

    fn from_json(json: &Json) -> (value: Result<Self, DecodeError>) {
        match get_required::<String>(json, "name") {
            Ok(name) => Ok(MultiSelectValueInternal { name }),
            Err(e) => Err(e),
        }
    }
}

impl RoundTrip for MultiSelectValueInternal {
    open spec fn faithful(model: Seq<char>) -> bool {
        true
    }

    proof fn lemma_round_trip(model: Seq<char>) {
        broadcast use lemma_lookup_push;

    }
}

/// The date that a page has in a date column.
#[derive(Default, Debug)]
pub struct DateValue {
    pub date: DateValueInternal,
}

impl View for DateValue {
    type V = DateModel;

    open spec fn view(&self) -> DateModel {
        self.date@
    }
}

impl JsonCodec for DateValue {
    open spec fn encoding(model: DateModel) -> JsonModel {
        JsonModel::Object(seq![("date"@, DateValueInternal::encoding(model))])
    }

    open spec fn decoding(json: JsonModel) -> Option<DateModel> {
        required::<DateValueInternal>(json, "date"@)
    }

    open spec fn refusal(json: JsonModel) -> Seq<char> {
        required_refusal::<DateValueInternal>(json, "date"@)
    }

    fn to_json(&self) -> (json: Json) {
        let mut members = no_members();
        push_member(&mut members, "date", self.date.to_json());
        Json::object(members)
    }

    fn from_json(json: &Json) -> (value: Result<Self, DecodeError>) {
        match get_required::<DateValueInternal>(json, "date") {
            Ok(date) => Ok(DateValue { date }),
            Err(e) => Err(e),
        }
    }
}

impl RoundTrip for DateValue {
    open spec fn faithful(model: DateModel) -> bool {
        DateValueInternal::faithful(model)
    }

    proof fn lemma_round_trip(model: DateModel) {
        broadcast use lemma_lookup_push;

        DateValueInternal::lemma_round_trip(model);
    }
}

/// A date, with the end of the range that it may open.
#[derive(Default, Debug)]
pub struct DateValueInternal {
    pub start: String,
    pub end: Option<String>,
}

/// The mathematical value of a date.
pub struct DateModel {
    pub start: Seq<char>,
    pub end: Option<Seq<char>>,
}

impl View for DateValueInternal {
    type V = DateModel;

    open spec fn view(&self) -> DateModel {
        DateModel { start: self.start@, end: option_model(self.end) }
    }
}

impl JsonCodec for DateValueInternal {
    open spec fn encoding(model: DateModel) -> JsonModel {
        JsonModel::Object(
            with_optional::<String>(
                seq![("start"@, String::encoding(model.start))],
                "end"@,
                model.end,
            ),
        )
    }

    open spec fn decoding(json: JsonModel) -> Option<DateModel> {
        let start = required::<String>(json, "start"@);
        let end = optional::<String>(json, "end"@);
        if start is Some && end is Some {
            Some(DateModel { start: start.unwrap(), end: end.unwrap() })
        } else {
            None
        }
    }

    open spec fn refusal(json: JsonModel) -> Seq<char> {
        if required::<String>(json, "start"@) is None {
            required_refusal::<String>(json, "start"@)
        } else {
            optional_refusal::<String>(json, "end"@)
        }
    }

    fn to_json(&self) -> (json: Json) {
        let mut members = no_members();
        push_member(&mut members, "start", self.start.to_json());
        push_optional::<String>(&mut members, "end", &self.end);
        Json::object(members)
    }

    fn from_json(json: &Json) -> (value: Result<Self, DecodeError>) {
        let start = get_required::<String>(json, "start");
        let end = get_optional::<String>(json, "end");
        match (start, end) {
            (Ok(start), Ok(end)) => Ok(DateValueInternal { start, end }),
            (Err(e), _) => Err(e),
            (_, Err(e)) => Err(e),
        }
    }
}

impl RoundTrip for DateValueInternal {
    open spec fn faithful(model: DateModel) -> bool {
        true
    }

    proof fn lemma_round_trip(model: DateModel) {
        broadcast use {lemma_lookup_push, lemma_lookup_with_optional};

        reveal_strlit("start");
        reveal_strlit("end");
        assert("start"@.len() == 5 && "end"@.len() == 3);
    }
}

impl DateValue {
    /// The date that starts at `date` and has no end.
    pub fn new(date: String) -> (value: Self)
        ensures
            value@ == (DateModel { start: date@, end: None }),
    {
        DateValue { date: DateValueInternal { start: date, end: None } }
    }
}

/// The end of a date is left out of its JSON form where the date has none,
/// and written where it has one.
pub proof fn lemma_date_omission(model: DateModel)
    ensures
        DateValueInternal::encoding(model).has_key("end"@) == (model.end is Some),
{
    broadcast use {lemma_lookup_push, lemma_lookup_with_optional};

    reveal_strlit("start");
    reveal_strlit("end");
    assert("start"@.len() == 5 && "end"@.len() == 3);
}

/// A number column of a database, with the format it shows numbers in.
#[derive(Default, Debug, Hash)]
pub struct NumberProperty {
    pub id: String,
    pub number: NumberInternal,
}

/// The mathematical value of a [`NumberProperty`].
pub struct NumberPropertyModel {
    pub id: Seq<char>,
    pub number: Seq<char>,
}

impl View for NumberProperty {
    type V = NumberPropertyModel;

    open spec fn view(&self) -> NumberPropertyModel {
        NumberPropertyModel {
            id: self.id@,
            number: self.number@,
        }
    }
}

impl JsonCodec for NumberProperty {
    open spec fn encoding(model: NumberPropertyModel) -> JsonModel {
        JsonModel::Object(
            Seq::empty()
                .push(("id"@, String::encoding(model.id)))
                .push(("number"@, NumberInternal::encoding(model.number))),
        )
    }

    open spec fn decoding(json: JsonModel) -> Option<NumberPropertyModel> {
        let id = required::<String>(json, "id"@);
        let number = required::<NumberInternal>(json, "number"@);
        if id is Some && number is Some {
            Some(NumberPropertyModel { id: id.unwrap(), number: number.unwrap() })
        } else {
            None
        }
    }

    open spec fn refusal(json: JsonModel) -> Seq<char> {
        if required::<String>(json, "id"@) is None {
            required_refusal::<String>(json, "id"@)
        } else {
            required_refusal::<NumberInternal>(json, "number"@)
        }
    }

    fn to_json(&self) -> (json: Json) {
        let mut members = no_members();
        push_member(&mut members, "id", self.id.to_json());
        push_member(&mut members, "number", self.number.to_json());
        Json::object(members)
    }

    fn from_json(json: &Json) -> (value: Result<Self, DecodeError>) {
        let id = get_required::<String>(json, "id");
        let number = get_required::<NumberInternal>(json, "number");
        match (id, number) {
            (Ok(id), Ok(number)) => Ok(NumberProperty { id, number }),
            (Err(e), _) => Err(e),
            (_, Err(e)) => Err(e),
        }
    }
}

impl RoundTrip for NumberProperty {
    open spec fn faithful(model: NumberPropertyModel) -> bool {
        String::faithful(model.id) && NumberInternal::faithful(model.number)
    }

    proof fn lemma_round_trip(model: NumberPropertyModel) {
        broadcast use lemma_lookup_push;

        reveal_strlit("id");
        assert("id"@.len() == 2);
        reveal_strlit("number");
        assert("number"@.len() == 6);
        String::lemma_round_trip(model.id);
        NumberInternal::lemma_round_trip(model.number);
    }
}

/// The format in which a number column shows its numbers.
#[derive(Default, Debug, Hash)]
pub struct NumberInternal {
    pub format: String,
}

impl View for NumberInternal {
    type V = Seq<char>;

    open spec fn view(&self) -> Seq<char> {
        self.format@
    }
}

impl JsonCodec for NumberInternal {
    open spec fn encoding(model: Seq<char>) -> JsonModel {
        JsonModel::Object(seq![("format"@, String::encoding(model))])
    }

    open spec fn decoding(json: JsonModel) -> Option<Seq<char>> {
        required::<String>(json, "format"@)
    }

    open spec fn refusal(json: JsonModel) -> Seq<char> {
        required_refusal::<String>(json, "format"@)
    }

    fn to_json(&self) -> (json: Json) {
        let mut members = no_members();
        push_member(&mut members, "format", self.format.to_json());
        Json::object(members)
    }

    fn from_json(json: &Json) -> (value: Result<Self, DecodeError>) {
        match get_required::<String>(json, "format") {
            Ok(format) => Ok(NumberInternal { format }),
            Err(e) => Err(e),
        }
    }
}

impl RoundTrip for NumberInternal {
    open spec fn faithful(model: Seq<char>) -> bool {
        true
    }

    proof fn lemma_round_trip(model: Seq<char>) {
        broadcast use lemma_lookup_push;

    }
}

/// The number that a page has in a number column. The number is held as a
/// literal: one read from text as serde_json writes the number again, so
/// that `2.50` is held as `2.5`. A value whose literal is no JSON number has
/// a JSON tree and no JSON text: writing it as text fails.
#[derive(Default, Debug)]
pub struct NumberValue {
    pub number: String,
}

impl View for NumberValue {
    type V = Seq<char>;

    open spec fn view(&self) -> Seq<char> {
        self.number@
    }
}

impl JsonCodec for NumberValue {
    open spec fn encoding(model: Seq<char>) -> JsonModel {
        JsonModel::Object(seq![("number"@, JsonModel::Number(model))])
    }

    open spec fn decoding(json: JsonModel) -> Option<Seq<char>> {
        match json.field("number"@) {
            Some(JsonModel::Number(literal)) => Some(literal),
            _ => None,
        }
    }

    open spec fn refusal(json: JsonModel) -> Seq<char> {
        match json.field("number"@) {
            Some(_) => under("number"@, "not a number"@),
            None => missing("number"@),
        }
    }

    fn to_json(&self) -> (json: Json) {
        let mut members = no_members();
        push_member(&mut members, "number", Json::Number(self.number.clone()));
        Json::object(members)
    }

    fn from_json(json: &Json) -> (value: Result<Self, DecodeError>) {
        match json.get("number") {
            Some(Json::Number(literal)) => Ok(NumberValue { number: literal.clone() }),
            Some(_) => Err(DecodeError::new("not a number").under("number")),
            None => Err(DecodeError::missing("number")),
        }
    }
}

impl RoundTrip for NumberValue {
    open spec fn faithful(model: Seq<char>) -> bool {
        true
    }

    proof fn lemma_round_trip(model: Seq<char>) {
        broadcast use lemma_lookup_push;

    }
}

/// The title column of a database.
#[derive(Default, Debug, Hash)]
pub struct TitleProperty {
    pub id: String,
    pub title: TitleInternal,
}

impl View for TitleProperty {
    type V = Seq<char>;

    open spec fn view(&self) -> Seq<char> {
        self.id@
    }
}

impl JsonCodec for TitleProperty {
    open spec fn encoding(model: Seq<char>) -> JsonModel {
        JsonModel::Object(
            Seq::empty()
                .push(("id"@, String::encoding(model)))
                .push(("title"@, TitleInternal::encoding(()))),
        )
    }

    open spec fn decoding(json: JsonModel) -> Option<Seq<char>> {
        if required::<TitleInternal>(json, "title"@) is Some {
            required::<String>(json, "id"@)
        } else {
            None
        }
    }

    open spec fn refusal(json: JsonModel) -> Seq<char> {
        if required::<String>(json, "id"@) is None {
            required_refusal::<String>(json, "id"@)
        } else {
            required_refusal::<TitleInternal>(json, "title"@)
        }
    }

    fn to_json(&self) -> (json: Json) {
        let mut members = no_members();
        push_member(&mut members, "id", self.id.to_json());
        push_member(&mut members, "title", self.title.to_json());
        Json::object(members)
    }

    fn from_json(json: &Json) -> (value: Result<Self, DecodeError>) {
        let id = get_required::<String>(json, "id");
        let title = get_required::<TitleInternal>(json, "title");
        match (id, title) {
            (Ok(id), Ok(title)) => Ok(TitleProperty { id, title }),
            (Err(e), _) => Err(e),
            (_, Err(e)) => Err(e),
        }
    }
}

impl RoundTrip for TitleProperty {
    open spec fn faithful(model: Seq<char>) -> bool {
        true
    }

    proof fn lemma_round_trip(model: Seq<char>) {
        broadcast use lemma_lookup_push;

        reveal_strlit("id");
        reveal_strlit("title");
        assert("id"@.len() == 2 && "title"@.len() == 5);
    }
}

/// The settings of a title column: there are none.
#[derive(Default, Debug, Hash)]
pub struct TitleInternal {}

impl View for TitleInternal {
    type V = ();

    open spec fn view(&self) -> () {
        ()
    }
}

impl JsonCodec for TitleInternal {
    open spec fn encoding(model: ()) -> JsonModel {
        JsonModel::Object(Seq::empty())
    }

    open spec fn decoding(json: JsonModel) -> Option<()> {
        if json is Object {
            Some(())
        } else {
            None
        }
    }

    open spec fn refusal(json: JsonModel) -> Seq<char> {
        "not an object"@
    }

    fn to_json(&self) -> (json: Json) {
        Json::object(no_members())
    }

    fn from_json(json: &Json) -> (value: Result<Self, DecodeError>) {
        match json.as_object() {
            Some(_) => Ok(TitleInternal {}),
            None => Err(DecodeError::new("not an object")),
        }
    }
}

impl RoundTrip for TitleInternal {
    open spec fn faithful(model: ()) -> bool {
        true
    }

    proof fn lemma_round_trip(model: ()) {
    }
}

/// The title of a page: runs of text, in order.
#[derive(Default, Debug, Hash)]
pub struct TitleValue {
    pub title: Vec<RichTextObject>,
}

impl View for TitleValue {
    type V = Seq<RichTextModel>;

    open spec fn view(&self) -> Seq<RichTextModel> {
        models(self.title@)
    }
}

impl JsonCodec for TitleValue {
    open spec fn encoding(model: Seq<RichTextModel>) -> JsonModel {
        JsonModel::Object(seq![("title"@, list_encoding::<RichTextObject>(model))])
    }

    open spec fn decoding(json: JsonModel) -> Option<Seq<RichTextModel>> {
        required_list::<RichTextObject>(json, "title"@)
    }

    open spec fn refusal(json: JsonModel) -> Seq<char> {
        required_list_refusal::<RichTextObject>(json, "title"@)
    }

    fn to_json(&self) -> (json: Json) {
        let mut members = no_members();
        push_member(&mut members, "title", encode_list(&self.title));
        Json::object(members)
    }

    fn from_json(json: &Json) -> (value: Result<Self, DecodeError>) {
        match get_required_list::<RichTextObject>(json, "title") {
            Ok(title) => Ok(TitleValue { title }),
            Err(e) => Err(e),
        }
    }
}

impl RoundTrip for TitleValue {
    open spec fn faithful(model: Seq<RichTextModel>) -> bool {
        list_faithful::<RichTextObject>(model)
    }

    proof fn lemma_round_trip(model: Seq<RichTextModel>) {
        broadcast use lemma_lookup_push;

        lemma_list_round_trip::<RichTextObject>(model);
    }
}

impl TitleValue {
    /// The title that is the one plain run `content`.
    pub fn new(content: &str) -> (value: Self)
        ensures
            value@ == seq![RichTextModel { content: content@, annotations: None }],
    {
        let mut title: Vec<RichTextObject> = Vec::new();
        title.push(RichTextObject::new(content));
        assert(models(title@) =~= seq![RichTextModel { content: content@, annotations: None }]);
        TitleValue { title }
    }
}

/// A rich-text column of a database.
#[derive(Default, Debug, Hash)]
pub struct RichTextProperty {
    pub id: String,
    pub rich_text: RichTextInternal,
}

impl View for RichTextProperty {
    type V = Seq<char>;

    open spec fn view(&self) -> Seq<char> {
        self.id@
    }
}

impl JsonCodec for RichTextProperty {
    open spec fn encoding(model: Seq<char>) -> JsonModel {
        JsonModel::Object(
            Seq::empty()
                .push(("id"@, String::encoding(model)))
                .push(("rich_text"@, RichTextInternal::encoding(()))),
        )
    }

    open spec fn decoding(json: JsonModel) -> Option<Seq<char>> {
        if required::<RichTextInternal>(json, "rich_text"@) is Some {
            required::<String>(json, "id"@)
        } else {
            None
        }
    }

    open spec fn refusal(json: JsonModel) -> Seq<char> {
        if required::<String>(json, "id"@) is None {
            required_refusal::<String>(json, "id"@)
        } else {
            required_refusal::<RichTextInternal>(json, "rich_text"@)
        }
    }

    fn to_json(&self) -> (json: Json) {
        let mut members = no_members();
        push_member(&mut members, "id", self.id.to_json());
        push_member(&mut members, "rich_text", self.rich_text.to_json());
        Json::object(members)
    }

    fn from_json(json: &Json) -> (value: Result<Self, DecodeError>) {
        let id = get_required::<String>(json, "id");
        let rich_text = get_required::<RichTextInternal>(json, "rich_text");
        match (id, rich_text) {
            (Ok(id), Ok(rich_text)) => Ok(RichTextProperty { id, rich_text }),
            (Err(e), _) => Err(e),
            (_, Err(e)) => Err(e),
        }
    }
}

impl RoundTrip for RichTextProperty {
    open spec fn faithful(model: Seq<char>) -> bool {
        true
    }

    proof fn lemma_round_trip(model: Seq<char>) {
        broadcast use lemma_lookup_push;

        reveal_strlit("id");
        reveal_strlit("rich_text");
        assert("id"@.len() == 2 && "rich_text"@.len() == 9);
    }
}

/// The settings of a rich-text column: there are none.
#[derive(Default, Debug, Hash)]
pub struct RichTextInternal {}

impl View for RichTextInternal {
    type V = ();

    open spec fn view(&self) -> () {
        ()
    }
}

impl JsonCodec for RichTextInternal {
    open spec fn encoding(model: ()) -> JsonModel {
        JsonModel::Object(Seq::empty())
    }

    open spec fn decoding(json: JsonModel) -> Option<()> {
        if json is Object {
            Some(())
        } else {
            None
        }
    }

    open spec fn refusal(json: JsonModel) -> Seq<char> {
        "not an object"@
    }

    fn to_json(&self) -> (json: Json) {
        Json::object(no_members())
    }

    fn from_json(json: &Json) -> (value: Result<Self, DecodeError>) {
        match json.as_object() {
            Some(_) => Ok(RichTextInternal {}),
            None => Err(DecodeError::new("not an object")),
        }
    }
}

impl RoundTrip for RichTextInternal {
    open spec fn faithful(model: ()) -> bool {
        true
    }

    proof fn lemma_round_trip(model: ()) {
    }
}

/// Rich text: runs of text, in order.
#[derive(Default, Debug, Hash)]
pub struct RichTextValue {
    pub rich_text: Vec<RichTextObject>,
}

impl View for RichTextValue {
    type V = Seq<RichTextModel>;

    open spec fn view(&self) -> Seq<RichTextModel> {
        models(self.rich_text@)
    }
}

impl JsonCodec for RichTextValue {
    open spec fn encoding(model: Seq<RichTextModel>) -> JsonModel {
        JsonModel::Object(seq![("rich_text"@, list_encoding::<RichTextObject>(model))])
    }

    open spec fn decoding(json: JsonModel) -> Option<Seq<RichTextModel>> {
        required_list::<RichTextObject>(json, "rich_text"@)
    }

    open spec fn refusal(json: JsonModel) -> Seq<char> {
        required_list_refusal::<RichTextObject>(json, "rich_text"@)
    }

    fn to_json(&self) -> (json: Json) {
        let mut members = no_members();
        push_member(&mut members, "rich_text", encode_list(&self.rich_text));
        Json::object(members)
    }

    fn from_json(json: &Json) -> (value: Result<Self, DecodeError>) {
        match get_required_list::<RichTextObject>(json, "rich_text") {
            Ok(rich_text) => Ok(RichTextValue { rich_text }),
            Err(e) => Err(e),
        }
    }
}

impl RoundTrip for RichTextValue {
    open spec fn faithful(model: Seq<RichTextModel>) -> bool {
        list_faithful::<RichTextObject>(model)
    }

    proof fn lemma_round_trip(model: Seq<RichTextModel>) {
        broadcast use lemma_lookup_push;

        lemma_list_round_trip::<RichTextObject>(model);
    }
}

/// One run of text with its style. The style is left out of the JSON form
/// where the run has none. Only runs of plain text are modelled.
#[derive(Default, Debug, Hash)]
pub struct RichTextObject {
    pub text: TextValueInternal,
    pub anotations: Option<RichTextAnotation>,
}

/// The mathematical value of a [`RichTextObject`].
pub struct RichTextModel {
    pub content: Seq<char>,
    pub annotations: Option<AnnotationModel>,
}

impl View for RichTextObject {
    type V = RichTextModel;

    open spec fn view(&self) -> RichTextModel {
        RichTextModel { content: self.text@, annotations: option_model(self.anotations) }
    }
}

impl JsonCodec for RichTextObject {
    open spec fn encoding(model: RichTextModel) -> JsonModel {
        JsonModel::Object(
            with_optional::<RichTextAnotation>(
                seq![("text"@, TextValueInternal::encoding(model.content))],
                "annotations"@,
                model.annotations,
            ),
        )
    }

    open spec fn decoding(json: JsonModel) -> Option<RichTextModel> {
        let text = required::<TextValueInternal>(json, "text"@);
        let annotations = optional::<RichTextAnotation>(json, "annotations"@);
        if text is Some && annotations is Some {
            Some(RichTextModel { content: text.unwrap(), annotations: annotations.unwrap() })
        } else {
            None
        }
    }

    open spec fn refusal(json: JsonModel) -> Seq<char> {
        if required::<TextValueInternal>(json, "text"@) is None {
            required_refusal::<TextValueInternal>(json, "text"@)
        } else {
            optional_refusal::<RichTextAnotation>(json, "annotations"@)
        }
    }

    fn to_json(&self) -> (json: Json) {
        let mut members = no_members();
        push_member(&mut members, "text", self.text.to_json());
        push_optional::<RichTextAnotation>(&mut members, "annotations", &self.anotations);
        Json::object(members)
    }

    fn from_json(json: &Json) -> (value: Result<Self, DecodeError>) {
        let text = get_required::<TextValueInternal>(json, "text");
        let anotations = get_optional::<RichTextAnotation>(json, "annotations");
        match (text, anotations) {
            (Ok(text), Ok(anotations)) => Ok(RichTextObject { text, anotations }),
            (Err(e), _) => Err(e),
            (_, Err(e)) => Err(e),
        }
    }
}

impl RoundTrip for RichTextObject {
    open spec fn faithful(model: RichTextModel) -> bool {
        true
    }

    proof fn lemma_round_trip(model: RichTextModel) {
        broadcast use {lemma_lookup_push, lemma_lookup_with_optional};

        reveal_strlit("text");
        reveal_strlit("annotations");
        assert("text"@.len() == 4 && "annotations"@.len() == 11);
        TextValueInternal::lemma_round_trip(model.content);
        if model.annotations is Some {
            RichTextAnotation::lemma_round_trip(model.annotations.unwrap());
        }
    }
}

/// The style of a run. A flag that is not set is left out of the JSON form.
#[derive(Default, Debug, Hash)]
pub struct RichTextAnotation {
    pub italic: Option<bool>,
    pub bold: Option<bool>,
    pub color: Option<String>,
    pub strikethrough: Option<bool>,
    pub underline: Option<bool>,
    pub code: Option<bool>,
}

/// The mathematical value of a [`RichTextAnotation`].
pub struct AnnotationModel {
    pub italic: Option<bool>,
    pub bold: Option<bool>,
    pub color: Option<Seq<char>>,
    pub strikethrough: Option<bool>,
    pub underline: Option<bool>,
    pub code: Option<bool>,
}

impl AnnotationModel {
    /// The style in which nothing is set.
    pub open spec fn unset() -> AnnotationModel {
        AnnotationModel {
            italic: None,
            bold: None,
            color: None,
            strikethrough: None,
            underline: None,
            code: None,
        }
    }
}

impl View for RichTextAnotation {
    type V = AnnotationModel;

    open spec fn view(&self) -> AnnotationModel {
        AnnotationModel {
            italic: self.italic,
            bold: self.bold,
            color: option_model(self.color),
            strikethrough: self.strikethrough,
            underline: self.underline,
            code: self.code,
        }
    }
}

/// The names of the members of a style: no two are the same.
proof fn lemma_annotation_keys()
    ensures
        "italic"@ == seq!['i', 't', 'a', 'l', 'i', 'c'],
        "bold"@ == seq!['b', 'o', 'l', 'd'],
        "color"@ == seq!['c', 'o', 'l', 'o', 'r'],
        "strikethrough"@.len() == 13,
        "underline"@.len() == 9,
        "code"@ == seq!['c', 'o', 'd', 'e'],
{
    reveal_strlit("italic");
    reveal_strlit("bold");
    reveal_strlit("color");
    reveal_strlit("strikethrough");
    reveal_strlit("underline");
    reveal_strlit("code");
    assert("italic"@ =~= seq!['i', 't', 'a', 'l', 'i', 'c']);
    assert("bold"@ =~= seq!['b', 'o', 'l', 'd']);
    assert("color"@ =~= seq!['c', 'o', 'l', 'o', 'r']);
    assert("code"@ =~= seq!['c', 'o', 'd', 'e']);
}

impl JsonCodec for RichTextAnotation {
    open spec fn encoding(model: AnnotationModel) -> JsonModel {
        JsonModel::Object(
            with_optional::<bool>(
                with_optional::<bool>(
                    with_optional::<bool>(
                        with_optional::<String>(
                            with_optional::<bool>(
                                with_optional::<bool>(Seq::empty(), "italic"@, model.italic),
                                "bold"@,
                                model.bold,
                            ),
                            "color"@,
                            model.color,
                        ),
                        "strikethrough"@,
                        model.strikethrough,
                    ),
                    "underline"@,
                    model.underline,
                ),
                "code"@,
                model.code,
            ),
        )
    }

    open spec fn decoding(json: JsonModel) -> Option<AnnotationModel> {
        let italic = optional::<bool>(json, "italic"@);
        let bold = optional::<bool>(json, "bold"@);
        let color = optional::<String>(json, "color"@);
        let strikethrough = optional::<bool>(json, "strikethrough"@);
        let underline = optional::<bool>(json, "underline"@);
        let code = optional::<bool>(json, "code"@);
        if json is Object && italic is Some && bold is Some && color is Some && strikethrough is Some
            && underline is Some && code is Some {
            Some(
                AnnotationModel {
                    italic: italic.unwrap(),
                    bold: bold.unwrap(),
                    color: color.unwrap(),
                    strikethrough: strikethrough.unwrap(),
                    underline: underline.unwrap(),
                    code: code.unwrap(),
                },
            )
        } else {
            None
        }
    }

    open spec fn refusal(json: JsonModel) -> Seq<char> {
        if !(json is Object) {
            "not an object"@
        } else if optional::<bool>(json, "italic"@) is None {
            optional_refusal::<bool>(json, "italic"@)
        } else if optional::<bool>(json, "bold"@) is None {
            optional_refusal::<bool>(json, "bold"@)
        } else if optional::<String>(json, "color"@) is None {
            optional_refusal::<String>(json, "color"@)
        } else if optional::<bool>(json, "strikethrough"@) is None {
            optional_refusal::<bool>(json, "strikethrough"@)
        } else if optional::<bool>(json, "underline"@) is None {
            optional_refusal::<bool>(json, "underline"@)
        } else {
            optional_refusal::<bool>(json, "code"@)
        }
    }

    fn to_json(&self) -> (json: Json) {
        let mut members = no_members();
        push_optional::<bool>(&mut members, "italic", &self.italic);
        push_optional::<bool>(&mut members, "bold", &self.bold);
        push_optional::<String>(&mut members, "color", &self.color);
        push_optional::<bool>(&mut members, "strikethrough", &self.strikethrough);
        push_optional::<bool>(&mut members, "underline", &self.underline);
        push_optional::<bool>(&mut members, "code", &self.code);
        Json::object(members)
    }

    fn from_json(json: &Json) -> (value: Result<Self, DecodeError>) {
        if json.as_object().is_none() {
            return Err(DecodeError::new("not an object"));
        }
        let italic = get_optional::<bool>(json, "italic");
        let bold = get_optional::<bool>(json, "bold");
        let color = get_optional::<String>(json, "color");
        let strikethrough = get_optional::<bool>(json, "strikethrough");
        let underline = get_optional::<bool>(json, "underline");
        let code = get_optional::<bool>(json, "code");
        match (italic, bold, color, strikethrough, underline, code) {
            (Ok(italic), Ok(bold), Ok(color), Ok(strikethrough), Ok(underline), Ok(code)) => Ok(
                RichTextAnotation { italic, bold, color, strikethrough, underline, code },
            ),
            (Err(e), _, _, _, _, _) => Err(e),
            (_, Err(e), _, _, _, _) => Err(e),
            (_, _, Err(e), _, _, _) => Err(e),
            (_, _, _, Err(e), _, _) => Err(e),
            (_, _, _, _, Err(e), _) => Err(e),
            (_, _, _, _, _, Err(e)) => Err(e),
        }
    }
}

impl RoundTrip for RichTextAnotation {
    open spec fn faithful(model: AnnotationModel) -> bool {
        true
    }

    #[verifier::rlimit(50)]
    proof fn lemma_round_trip(model: AnnotationModel) {
        broadcast use {lemma_lookup_push, lemma_lookup_with_optional};

        lemma_annotation_keys();
        let json = Self::encoding(model);
        assert(optional::<bool>(json, "italic"@) == Some(model.italic));
        assert(optional::<bool>(json, "bold"@) == Some(model.bold));
        assert(optional::<String>(json, "color"@) == Some(model.color));
        assert(optional::<bool>(json, "strikethrough"@) == Some(model.strikethrough));
        assert(optional::<bool>(json, "underline"@) == Some(model.underline));
        assert(optional::<bool>(json, "code"@) == Some(model.code));
    }
}

impl RichTextObject {
    /// The plain run `content`: it has no style.
    pub fn new(content: &str) -> (run: Self)
        ensures
            run@ == (RichTextModel { content: content@, annotations: None }),
    {
        RichTextObject { text: TextValueInternal { content: content.to_owned() }, anotations: None }
    }

    /// The plain run `content`, which it takes over.
    pub fn new_owned(content: String) -> (run: Self)
        ensures
            run@ == (RichTextModel { content: content@, annotations: None }),
    {
        RichTextObject { text: TextValueInternal { content }, anotations: None }
    }

    /// The run `content` in bold: of its style only `bold` is set.
    pub fn bold(content: &str) -> (run: Self)
        ensures
            run@ == (RichTextModel {
                content: content@,
                annotations: Some(AnnotationModel { bold: Some(true), ..AnnotationModel::unset() }),
            }),
    {
        let anotation = RichTextAnotation {
            italic: None,
            bold: Some(true),
            color: None,
            strikethrough: None,
            underline: None,
            code: None,
        };
        RichTextObject {
            text: TextValueInternal { content: content.to_owned() },
            anotations: Some(anotation),
        }
    }

    /// The run `content` as code: of its style only `code` is set.
    pub fn code(content: &str) -> (run: Self)
        ensures
            run@ == (RichTextModel {
                content: content@,
                annotations: Some(AnnotationModel { code: Some(true), ..AnnotationModel::unset() }),
            }),
    {
        let anotation = RichTextAnotation {
            italic: None,
            bold: None,
            color: None,
            strikethrough: None,
            underline: None,
            code: Some(true),
        };
        RichTextObject {
            text: TextValueInternal { content: content.to_owned() },
            anotations: Some(anotation),
        }
    }
}

/// A flag of a style that is not set is left out of its JSON form, and a
/// flag that is set is written.
#[verifier::rlimit(50)]
pub proof fn lemma_annotation_omission(model: AnnotationModel)
    ensures
        RichTextAnotation::encoding(model).has_key("italic"@) == (model.italic is Some),
        RichTextAnotation::encoding(model).has_key("bold"@) == (model.bold is Some),
        RichTextAnotation::encoding(model).has_key("color"@) == (model.color is Some),
        RichTextAnotation::encoding(model).has_key("strikethrough"@) == (model.strikethrough
            is Some),
        RichTextAnotation::encoding(model).has_key("underline"@) == (model.underline is Some),
        RichTextAnotation::encoding(model).has_key("code"@) == (model.code is Some),
{
    broadcast use {lemma_lookup_push, lemma_lookup_with_optional};

    lemma_annotation_keys();
}

/// A style in which nothing is set is written as the empty object.
pub proof fn lemma_unset_annotation_empty()
    ensures
        RichTextAnotation::encoding(AnnotationModel::unset()) == JsonModel::Object(Seq::empty()),
{
    reveal(with_optional);
}

/// The style of a run is left out of its JSON form where the run has none,
/// and written where it has one.
pub proof fn lemma_run_omission(model: RichTextModel)
    ensures
        RichTextObject::encoding(model).has_key("annotations"@) == (model.annotations is Some),
{
    broadcast use {lemma_lookup_push, lemma_lookup_with_optional};

    reveal_strlit("text");
    reveal_strlit("annotations");
    assert("text"@.len() == 4 && "annotations"@.len() == 11);
}

/// The characters of a run of text.
#[derive(Default, Debug, Hash)]
pub struct TextValueInternal {
    pub content: String,
}

impl View for TextValueInternal {
    type V = Seq<char>;

    open spec fn view(&self) -> Seq<char> {
        self.content@
    }
}

impl JsonCodec for TextValueInternal {
    open spec fn encoding(model: Seq<char>) -> JsonModel {
        JsonModel::Object(seq![("content"@, String::encoding(model))])
    }

    open spec fn decoding(json: JsonModel) -> Option<Seq<char>> {
        required::<String>(json, "content"@)
    }

    open spec fn refusal(json: JsonModel) -> Seq<char> {
        required_refusal::<String>(json, "content"@)
    }

    fn to_json(&self) -> (json: Json) {
        let mut members = no_members();
        push_member(&mut members, "content", self.content.to_json());
        Json::object(members)
    }

    fn from_json(json: &Json) -> (value: Result<Self, DecodeError>) {
        match get_required::<String>(json, "content") {
            Ok(content) => Ok(TextValueInternal { content }),
            Err(e) => Err(e),
        }
    }
}

impl RoundTrip for TextValueInternal {
    open spec fn faithful(model: Seq<char>) -> bool {
        true
    }

    proof fn lemma_round_trip(model: Seq<char>) {
        broadcast use lemma_lookup_push;

    }
}

/// A date column of a database.
#[derive(Default, Debug, Hash)]
pub struct DateProperty {
    pub id: String,
    pub date: DateInternal,
}

impl View for DateProperty {
    type V = Seq<char>;

    open spec fn view(&self) -> Seq<char> {
        self.id@
    }
}

impl JsonCodec for DateProperty {
    open spec fn encoding(model: Seq<char>) -> JsonModel {
        JsonModel::Object(
            Seq::empty()
                .push(("id"@, String::encoding(model)))
                .push(("date"@, DateInternal::encoding(()))),
        )
    }

    open spec fn decoding(json: JsonModel) -> Option<Seq<char>> {
        if required::<DateInternal>(json, "date"@) is Some {
            required::<String>(json, "id"@)
        } else {
            None
        }
    }

    open spec fn refusal(json: JsonModel) -> Seq<char> {
        if required::<String>(json, "id"@) is None {
            required_refusal::<String>(json, "id"@)
        } else {
            required_refusal::<DateInternal>(json, "date"@)
        }
    }

    fn to_json(&self) -> (json: Json) {
        let mut members = no_members();
        push_member(&mut members, "id", self.id.to_json());
        push_member(&mut members, "date", self.date.to_json());
        Json::object(members)
    }

    fn from_json(json: &Json) -> (value: Result<Self, DecodeError>) {
        let id = get_required::<String>(json, "id");
        let date = get_required::<DateInternal>(json, "date");
        match (id, date) {
            (Ok(id), Ok(date)) => Ok(DateProperty { id, date }),
            (Err(e), _) => Err(e),
            (_, Err(e)) => Err(e),
        }
    }
}

impl RoundTrip for DateProperty {
    open spec fn faithful(model: Seq<char>) -> bool {
        true
    }

    proof fn lemma_round_trip(model: Seq<char>) {
        broadcast use lemma_lookup_push;

        reveal_strlit("id");
        reveal_strlit("date");
        assert("id"@.len() == 2 && "date"@.len() == 4);
    }
}

/// The settings of a date column: there are none.
#[derive(Default, Debug, Hash)]
pub struct DateInternal {}

impl View for DateInternal {
    type V = ();

    open spec fn view(&self) -> () {
        ()
    }
}

impl JsonCodec for DateInternal {
    open spec fn encoding(model: ()) -> JsonModel {
        JsonModel::Object(Seq::empty())
    }

    open spec fn decoding(json: JsonModel) -> Option<()> {
        if json is Object {
            Some(())
        } else {
            None
        }
    }

    open spec fn refusal(json: JsonModel) -> Seq<char> {
        "not an object"@
    }

    fn to_json(&self) -> (json: Json) {
        Json::object(no_members())
    }

    fn from_json(json: &Json) -> (value: Result<Self, DecodeError>) {
        match json.as_object() {
            Some(_) => Ok(DateInternal {}),
            None => Err(DecodeError::new("not an object")),
        }
    }
}

impl RoundTrip for DateInternal {
    open spec fn faithful(model: ()) -> bool {
        true
    }

    proof fn lemma_round_trip(model: ()) {
    }
}

} // verus!
