//! From an alert to the page that reports it, and from the text of a
//! database's description to the verdict on it. Everything here computes; the
//! requests themselves are made by whoever holds the connection.

use vstd::prelude::*;
use vstd::std_specs::convert::FromSpecImpl;
use crate::block::{plain_text, BlockElement, BlockModel, CodeBlockModel};
use crate::codec::{models, JsonCodec};
use crate::database::{DatabaseDefinition, DatabaseModel, PropertyDefinition};
use crate::json::{json_document, json_text, parse_document, print_document, Json};
use crate::map::{map_models, PropertyMap};
use crate::page::{DatabaseParent, PageElement, PageModel, PropertyValue, PropertyValueModel};
use crate::properties::{
    DateModel, DateValue, MultiSelectValue, MultiSelectValueInternal, SelectValue,
    SelectValueInternal, TitleValue,
};
use usiem::chrono::{LocalResult, TimeZone, Utc};

verus! {

/// `reqwest::Error`, carried as it comes.
#[verifier::external_type_specification]
#[verifier::external_body]
pub struct ExConnectionError(reqwest::Error);

/// What can go wrong with one request. None of these is tried again.
#[derive(Debug)]
pub enum NotionError {
    /// The request did not get through.
    Connection(reqwest::Error),
    /// What was to be sent or what came back is not JSON of the right shape.
    Serialization(usiem::serde_json::Error),
    /// The server refused the request; this is what it answered.
    Server(String),
}

pub type NotionResult<T> = Result<T, NotionError>;

impl From<reqwest::Error> for NotionError {
    fn from(e: reqwest::Error) -> (error: Self) {
        NotionError::Connection(e)
    }
}

impl FromSpecImpl<reqwest::Error> for NotionError {
    open spec fn obeys_from_spec() -> bool {
        true
    }

    open spec fn from_spec(e: reqwest::Error) -> Self {
        NotionError::Connection(e)
    }
}

impl From<usiem::serde_json::Error> for NotionError {
    fn from(e: usiem::serde_json::Error) -> (error: Self) {
        NotionError::Serialization(e)
    }
}

impl FromSpecImpl<usiem::serde_json::Error> for NotionError {
    open spec fn obeys_from_spec() -> bool {
        true
    }

    open spec fn from_spec(e: usiem::serde_json::Error) -> Self {
        NotionError::Serialization(e)
    }
}

/// How grave an alert is.
#[derive(Debug, Clone, Copy, PartialEq, Eq, Structural)]
pub enum AlertSeverity {
    Informational,
    Low,
    Medium,
    High,
    Critical,
}

/// The name under which a severity is shown.
pub open spec fn severity_label(severity: AlertSeverity) -> Seq<char> {
    match severity {
        AlertSeverity::Informational => "Informational"@,
        AlertSeverity::Low => "Low"@,
        AlertSeverity::Medium => "Medium"@,
        AlertSeverity::High => "High"@,
        AlertSeverity::Critical => "Critical"@,
    }
}

/// The name under which a severity is shown.
pub fn alert_severity(severity: &AlertSeverity) -> (label: String)
    ensures
        label@ == severity_label(*severity),
{
    match severity {
        AlertSeverity::Informational => "Informational".to_owned(),
        AlertSeverity::Low => "Low".to_owned(),
        AlertSeverity::Medium => "Medium".to_owned(),
        AlertSeverity::High => "High".to_owned(),
        AlertSeverity::Critical => "Critical".to_owned(),
    }
}

/// One alert, as far as a page reports it.
#[derive(Debug)]
pub struct Alert {
    pub title: String,
    pub description: String,
    pub severity: AlertSeverity,
    /// When the alert fired, in milliseconds since the start of 1970.
    pub date: i64,
    pub tags: Vec<String>,
    /// The techniques, each by its identifier.
    pub techniques: Vec<String>,
    /// The rule that fired.
    pub rule: String,
    /// The message of the log that set the alert off.
    pub log_message: String,
    /// That log in full, as indented JSON; `None` where it could not be
    /// written so.
    pub log_pretty: Option<String>,
}

/// The mathematical value of an [`Alert`].
pub struct AlertModel {
    pub title: Seq<char>,
    pub description: Seq<char>,
    pub severity: AlertSeverity,
    pub date: int,
    pub tags: Seq<Seq<char>>,
    pub techniques: Seq<Seq<char>>,
    pub rule: Seq<char>,
    pub log_message: Seq<char>,
    pub log_pretty: Option<Seq<char>>,
}

impl View for Alert {
    type V = AlertModel;

    open spec fn view(&self) -> AlertModel {
        AlertModel {
            title: self.title@,
            description: self.description@,
            severity: self.severity,
            date: self.date as int,
            tags: models(self.tags@),
            techniques: models(self.techniques@),
            rule: self.rule@,
            log_message: self.log_message@,
            log_pretty: match self.log_pretty {
                Some(text) => Some(text@),
                None => None,
            },
        }
    }
}

/// What stands in place of a log that could not be written as JSON.
pub open spec fn log_or_notice(log_pretty: Option<Seq<char>>) -> Seq<char> {
    match log_pretty {
        Some(text) => text,
        None => "Cannot show the log"@,
    }
}

/// A code block with the one plain run `content`, in `language`.
pub open spec fn code_block(content: Seq<char>, language: Seq<char>) -> BlockModel {
    BlockModel::Code(CodeBlockModel { rich_text: plain_text(content), language })
}

/// The values that the page of an alert gives to the properties of the
/// database, where `fired` is the instant at which the alert fired.
pub open spec fn alert_properties(alert: AlertModel, fired: Seq<char>) -> Map<
    Seq<char>,
    PropertyValueModel,
> {
    Map::empty().insert("Name"@, PropertyValueModel::Title(plain_text(alert.title))).insert(
        "Priority"@,
        PropertyValueModel::Select(severity_label(alert.severity)),
    ).insert("MITRE"@, PropertyValueModel::MultiSelect(alert.techniques)).insert(
        "Tags"@,
        PropertyValueModel::MultiSelect(alert.tags),
    ).insert("Fired"@, PropertyValueModel::Date(DateModel { start: fired, end: None }))
}

/// The content of the page of an alert: the title, the rule, the
/// description, the message of the log, and the log in full.
pub open spec fn alert_children(alert: AlertModel) -> Seq<BlockModel> {
    Seq::empty().push(BlockModel::HeadingOne(plain_text(alert.title))).push(
        BlockModel::HeadingThree(plain_text(alert.rule)),
    ).push(BlockModel::Paragraph(plain_text(alert.description))).push(
        code_block(alert.log_message, "plain text"@),
    ).push(code_block(log_or_notice(alert.log_pretty), "json"@))
}

/// The page that reports an alert in the database `database_id`.
pub open spec fn alert_page(alert: AlertModel, database_id: Seq<char>, fired: Seq<char>) -> PageModel {
    PageModel {
        parent: database_id,
        properties: alert_properties(alert, fired),
        children: alert_children(alert),
    }
}

/// The instant that a page says its alert fired at.
pub open spec fn page_fired(page: PageModel) -> Seq<char> {
    page.properties["Fired"@]->Date_0.start
}

/// The options named by `names`, in order and with repetitions.
pub fn options_of(names: &Vec<String>) -> (value: MultiSelectValue)
    ensures
        value@ == models(names@),
{
    let mut multi_select: Vec<MultiSelectValueInternal> = Vec::new();
    let mut i: usize = 0;
    while i < names.len()
        invariant
            i <= names.len(),
            multi_select@.len() == i,
            forall|j: int| 0 <= j < i ==> (#[trigger] multi_select@[j])@ == names@[j]@,
        decreases names.len() - i,
    {
        multi_select.push(MultiSelectValueInternal { name: names[i].clone() });
        i += 1;
    }
    assert(models(multi_select@) =~= models(names@));
    MultiSelectValue { multi_select }
}

/// The page that reports `alert` in the database `database_id`, where `fired`
/// is the instant at which the alert fired.
pub fn build_page_at(alert: &Alert, database_id: &str, fired: String) -> (page: PageElement)
    ensures
        page@ == alert_page(alert@, database_id@, fired@),
{
    let mut properties: PropertyMap<PropertyValue> = PropertyMap::new();
    let ghost m0 = properties@;
    properties.insert("Name".to_owned(), PropertyValue::Title(TitleValue::new(alert.title.as_str())));
    let ghost m1 = properties@;
    properties.insert(
        "Priority".to_owned(),
        PropertyValue::Select(
            SelectValue { select: SelectValueInternal { name: alert_severity(&alert.severity) } },
        ),
    );
    let ghost m2 = properties@;
    properties.insert("MITRE".to_owned(), PropertyValue::MultiSelect(options_of(&alert.techniques)));
    let ghost m3 = properties@;
    properties.insert("Tags".to_owned(), PropertyValue::MultiSelect(options_of(&alert.tags)));
    let ghost m4 = properties@;
    properties.insert("Fired".to_owned(), PropertyValue::Date(DateValue::new(fired)));
    proof {
        let a = alert@;
        let named = Map::<Seq<char>, PropertyValueModel>::empty().insert(
            "Name"@,
            PropertyValueModel::Title(plain_text(a.title)),
        );
        let rated = named.insert("Priority"@, PropertyValueModel::Select(severity_label(a.severity)));
        let mapped = rated.insert("MITRE"@, PropertyValueModel::MultiSelect(a.techniques));
        let tagged = mapped.insert("Tags"@, PropertyValueModel::MultiSelect(a.tags));
        assert(map_models(m0) =~= Map::<Seq<char>, PropertyValueModel>::empty());
        assert(map_models(m1) =~= named);
        assert(map_models(m2) =~= rated);
        assert(map_models(m3) =~= mapped);
        assert(map_models(m4) =~= tagged);
        assert(map_models(properties@) =~= alert_properties(a, fired@));
    }
    let log = match &alert.log_pretty {
        Some(text) => text.clone(),
        None => "Cannot show the log".to_owned(),
    };
    let mut children: Vec<BlockElement> = Vec::new();
    children.push(BlockElement::heading_one(alert.title.as_str()));
    children.push(BlockElement::heading_three(alert.rule.as_str()));
    children.push(BlockElement::paragraph(alert.description.as_str()));
    children.push(BlockElement::code(alert.log_message.as_str(), None));
    children.push(BlockElement::code_owned(log, Some("json".to_owned())));
    assert(models(children@) =~= alert_children(alert@));
    PageElement {
        parent: DatabaseParent { database_id: database_id.to_owned() },
        properties,
        children,
    }
}

/// The instant that lies `millis` milliseconds after the start of 1970, in
/// universal time and as it is written in a page; `None` where the calendar
/// does not reach that far.
pub uninterp spec fn utc_instant(millis: int) -> Option<Seq<char>>;

/// `Utc.timestamp_millis_opt` of chrono, and the instant it gives written by
/// its `Debug` form. The outcome depends on the number alone; it is `None`
/// where chrono has no instant for the number.
#[verifier::external_body]
fn instant_text(millis: i64) -> (text: Option<String>)
    ensures
        match text {
            Some(t) => utc_instant(millis as int) == Some(t@),
            None => utc_instant(millis as int) is None,
        },
{
    match Utc.timestamp_millis_opt(millis) {
        LocalResult::Single(instant) => Some(format!("{:?}", instant)),
        _ => None,
    }
}

/// `Utc::now` of chrono, written by its `Debug` form: the instant at which
/// it is called, of which nothing is known beforehand. It gives up on a
/// machine whose clock stands before 1970.
#[verifier::external_body]
fn now_text() -> (text: String) {
    format!("{:?}", Utc::now())
}

/// The instant of an alert as a page shows it: `instant`, that of its date,
/// where the calendar reaches that far, and else `now`, the reading of the
/// clock.
pub fn fired_or_now(instant: Option<String>, now: String) -> (fired: String)
    ensures
        fired@ == match instant {
            Some(text) => text@,
            None => now@,
        },
{
    match instant {
        Some(text) => text,
        None => now,
    }
}

/// The page that reports `alert` in the database `database_id`. The alert
/// fired at the instant that its date stands for; where the calendar does
/// not reach that far, the page says instead when it was built. The clock is
/// read in either case, and [`fired_or_now`] chooses.
pub fn build_page(alert: &Alert, database_id: &str) -> (page: PageElement)
    ensures
        page@ == alert_page(alert@, database_id@, page_fired(page@)),
        utc_instant(alert@.date) is Some ==> page_fired(page@) == utc_instant(alert@.date).unwrap(),
{
    let instant = instant_text(alert.date);
    let now = now_text();
    build_page_at(alert, database_id, fired_or_now(instant, now))
}

/// A database can take the pages of alerts: it has a title `Name`, a select
/// `Priority`, the multi-selects `MITRE` and `Tags`, a status `Status` and a
/// date `Fired`.
pub open spec fn schema_valid(schema: DatabaseModel) -> bool {
    let p = schema.properties;
    &&& p.contains_key("Name"@) && p["Name"@] is Title
    &&& p.contains_key("Priority"@) && p["Priority"@] is Select
    &&& p.contains_key("MITRE"@) && p["MITRE"@] is MultiSelect
    &&& p.contains_key("Tags"@) && p["Tags"@] is MultiSelect
    &&& p.contains_key("Status"@) && p["Status"@] is Status
    &&& p.contains_key("Fired"@) && p["Fired"@] is Date
}

/// Whether a database can take the pages of alerts.
pub fn check_properties(properties: &DatabaseDefinition) -> (valid: bool)
    ensures
        valid == schema_valid(properties@),
{
    let name = properties.properties.get("Name");
    let priority = properties.properties.get("Priority");
    let mitre = properties.properties.get("MITRE");
    let tags = properties.properties.get("Tags");
    let status = properties.properties.get("Status");
    let fired = properties.properties.get("Fired");
    match (name, priority, mitre, tags, status, fired) {
        (Some(name), Some(priority), Some(mitre), Some(tags), Some(status), Some(fired)) => {
            match (name, priority, mitre, tags, status, fired) {
                (
                    PropertyDefinition::Title(_),
                    PropertyDefinition::Select(_),
                    PropertyDefinition::MultiSelect(_),
                    PropertyDefinition::MultiSelect(_),
                    PropertyDefinition::Status(_),
                    PropertyDefinition::Date(_),
                ) => true,
                _ => false,
            }
        },
        _ => false,
    }
}

/// The error that serde_json makes of a message.
pub uninterp spec fn message_error(message: Seq<char>) -> usiem::serde_json::Error;

/// `Error::custom` of serde, for `serde_json::Error`: the error that carries
/// `message`, which is made of the message alone.
#[verifier::external_body]
fn shape_error(message: &str) -> (error: usiem::serde_json::Error)
    ensures
        error == message_error(message@),
{
    <usiem::serde_json::Error as usiem::serde::de::Error>::custom(message)
}

/// The value that a parsed document stands for. Fails where the text was no
/// JSON, with the parser's error, and where the document has not the shape
/// of a `T`, with the error made of the words of its refusal.
pub fn decode_document<T: JsonCodec>(parsed: Result<Json, usiem::serde_json::Error>) -> (value:
    NotionResult<T>)
    ensures
        match value {
            Ok(v) => parsed is Ok && T::decoding(parsed->Ok_0@) == Some(v@),
            Err(e) => match parsed {
                Ok(json) => T::decoding(json@) is None && e == NotionError::Serialization(
                    message_error(T::refusal(json@)),
                ),
                Err(cause) => e == NotionError::Serialization(cause),
            },
        },
{
    match parsed {
        Ok(json) => match T::from_json(&json) {
            Ok(v) => Ok(v),
            Err(e) => Err(NotionError::Serialization(shape_error(e.message.as_str()))),
        },
        Err(cause) => Err(NotionError::Serialization(cause)),
    }
}

/// The value that JSON text stands for, if it stands for a `T`.
pub open spec fn text_decoding<T: JsonCodec>(text: Seq<char>) -> Option<T::V> {
    match json_document(text) {
        Some(json) => T::decoding(json),
        None => None,
    }
}

/// Reads a value from JSON text. Fails where the text is no JSON, with the
/// parser's error, and where the document has not the shape of a `T`, with
/// the error made of the words of its refusal.
pub fn from_str<T: JsonCodec>(text: &str) -> (value: NotionResult<T>)
    ensures
        match value {
            Ok(v) => text_decoding::<T>(text@) == Some(v@),
            Err(e) => e is Serialization && text_decoding::<T>(text@) is None && (json_document(
                text@,
            ) matches Some(json) ==> e == NotionError::Serialization(
                message_error(T::refusal(json)),
            )),
        },
{
    decode_document(parse_document(text))
}

/// Writes a value as JSON text.
pub fn to_string<T: JsonCodec>(value: &T) -> (text: NotionResult<String>)
    ensures
        match text {
            Ok(t) => json_text(T::encoding(value@)) == Some(t@),
            Err(e) => e is Serialization && json_text(T::encoding(value@)) is None,
        },
{
    match print_document(&value.to_json()) {
        Ok(t) => Ok(t),
        Err(cause) => Err(NotionError::Serialization(cause)),
    }
}

/// Whether the database that describes itself in `body` can take the pages
/// of alerts. Fails where `body` does not describe a database.
pub fn check_database_body(body: &str) -> (valid: NotionResult<bool>)
    ensures
        match valid {
            Ok(v) => text_decoding::<DatabaseDefinition>(body@) is Some && v == schema_valid(
                text_decoding::<DatabaseDefinition>(body@).unwrap(),
            ),
            Err(e) => e is Serialization && text_decoding::<DatabaseDefinition>(body@) is None && (
            json_document(body@) matches Some(json) ==> e == NotionError::Serialization(
                message_error(DatabaseDefinition::refusal(json)),
            )),
        },
{
    match from_str::<DatabaseDefinition>(body) {
        Ok(database) => Ok(check_properties(&database)),
        Err(e) => Err(e),
    }
}

/// A status of the success class, 200 to 299.
pub open spec fn is_success(status: u16) -> bool {
    200 <= status <= 299
}

/// Whether a status is of the success class.
pub fn is_success_status(status: u16) -> (success: bool)
    ensures
        success == is_success(status),
{
    200 <= status && status <= 299
}

/// What the answer to a request means: nothing is wrong where the status is
/// of the success class; else the server refused, and said `body`.
pub fn response_result(status: u16, body: String) -> (result: NotionResult<()>)
    ensures
        match result {
            Ok(_) => is_success(status),
            Err(e) => !is_success(status) && e == NotionError::Server(body),
        },
{
    if is_success_status(status) {
        Ok(())
    } else {
        Err(NotionError::Server(body))
    }
}

} // verus!
