use std::collections::hash_map::DefaultHasher;
use std::hash::{Hash, Hasher};

use notion_alerter::block::BlockElement;
use notion_alerter::client::{from_str, to_string, NotionError};
use notion_alerter::codec::JsonCodec;
use notion_alerter::database::{DatabaseDefinition, PropertyDefinition};
use notion_alerter::json::Json;
use notion_alerter::map::PropertyMap;
use notion_alerter::page::{DatabaseParent, PageElement, PropertyValue};
use notion_alerter::properties::{
    MultiSelectValue, MultiSelectValueInternal, RichTextObject, RichTextValue, SelectValue,
    SelectValueInternal, TitleValue,
};

fn grocery_database(last_name: &str) -> String {
    format!(
        r#"{{
            "object": "database",
            "id" : "1234",
            "created_time" : "1234",
            "last_edited_time" : "1234",
            "properties": {{
              "Grocery item": {{
                "id": "fy:{{",
                "type": "title",
                "title": {{}}
              }},
              "Price": {{
                "id": "dia[",
                "type": "number",
                "number": {{
                  "format": "dollar"
                }}
              }},
              "Last ordered": {{
                "id": "]\\R[",
                "type": "date",
                "date": {{}}
              }},
              "{}" : {{
                "id" : "123",
                "type" : "files",
                "files" : {{
                    "something_random" : ["1234"]
                }}
              }}
            }}
          }}"#,
        last_name
    )
}

fn hash_of(database: &DatabaseDefinition) -> u64 {
    let mut hasher = DefaultHasher::new();
    database.hash(&mut hasher);
    hasher.finish()
}

fn object(members: Vec<(&str, Json)>) -> Json {
    Json::Object(members.into_iter().map(|(name, value)| (name.to_owned(), value)).collect())
}

fn text(content: &str) -> Json {
    Json::Text(content.to_owned())
}

#[test]
fn should_deserialize_database() {
    let _database_obj: DatabaseDefinition = DatabaseDefinition::from_json(&object(vec![
        ("object", text("database")),
        ("id", text("1234")),
        ("created_time", text("1234")),
        ("last_edited_time", text("1234")),
        (
            "properties",
            object(vec![
                (
                    "Grocery item",
                    object(vec![
                        ("id", text("fy:{")),
                        ("type", text("title")),
                        ("title", object(vec![])),
                    ]),
                ),
                (
                    "Price",
                    object(vec![
                        ("id", text("dia[")),
                        ("type", text("number")),
                        ("number", object(vec![("format", text("dollar"))])),
                    ]),
                ),
                (
                    "Last ordered",
                    object(vec![
                        ("id", text("]\\R[")),
                        ("type", text("date")),
                        ("date", object(vec![])),
                    ]),
                ),
                (
                    "something",
                    object(vec![
                        ("id", text("123")),
                        ("type", text("files")),
                        (
                            "files",
                            object(vec![(
                                "something_random",
                                Json::Array(vec![text("1234")]),
                            )]),
                        ),
                    ]),
                ),
            ]),
        ),
    ]))
    .unwrap();
}

#[test]
fn should_be_different_database_hashes() {
    let database_obj1: DatabaseDefinition = DatabaseDefinition::from_json(&object(vec![
        ("object", text("database")),
        ("id", text("1234")),
        ("created_time", text("1234")),
        ("last_edited_time", text("1234")),
        (
            "properties",
            object(vec![
                (
                    "Grocery item",
                    object(vec![
                        ("id", text("fy:{")),
                        ("type", text("title")),
                        ("title", object(vec![])),
                    ]),
                ),
                (
                    "Price",
                    object(vec![
                        ("id", text("dia[")),
                        ("type", text("number")),
                        ("number", object(vec![("format", text("dollar"))])),
                    ]),
                ),
                (
                    "Last ordered",
                    object(vec![
                        ("id", text("]\\R[")),
                        ("type", text("date")),
                        ("date", object(vec![])),
                    ]),
                ),
                (
                    "something",
                    object(vec![
                        ("id", text("123")),
                        ("type", text("files")),
                        (
                            "files",
                            object(vec![(
                                "something_random",
                                Json::Array(vec![text("1234")]),
                            )]),
                        ),
                    ]),
                ),
            ]),
        ),
    ]))
    .unwrap();

    let database_obj2: DatabaseDefinition = DatabaseDefinition::from_json(&object(vec![
        ("object", text("database")),
        ("id", text("1234")),
        ("created_time", text("1234")),
        ("last_edited_time", text("1234")),
        (
            "properties",
            object(vec![
                (
                    "Grocery item",
                    object(vec![
                        ("id", text("fy:{")),
                        ("type", text("title")),
                        ("title", object(vec![])),
                    ]),
                ),
                (
                    "Price",
                    object(vec![
                        ("id", text("dia[")),
                        ("type", text("number")),
                        ("number", object(vec![("format", text("dollar"))])),
                    ]),
                ),
                (
                    "Last ordered",
                    object(vec![
                        ("id", text("]\\R[")),
                        ("type", text("date")),
                        ("date", object(vec![])),
                    ]),
                ),
                (
                    "something2",
                    object(vec![
                        ("id", text("123")),
                        ("type", text("files")),
                        (
                            "files",
                            object(vec![(
                                "something_random",
                                Json::Array(vec![text("1234")]),
                            )]),
                        ),
                    ]),
                ),
            ]),
        ),
    ]))
    .unwrap();
    let mut hasher1 = DefaultHasher::new();
    database_obj1.hash(&mut hasher1);
    let mut hasher2 = DefaultHasher::new();
    database_obj2.hash(&mut hasher2);
    assert_ne!(hasher1.finish(), hasher2.finish());
}

#[test]
fn should_deserialize_page_element() {
    let _database_obj: PageElement = PageElement::from_json(&object(vec![
        ("parent", object(vec![("database_id", text("d9824bdc84454327be8b5b47500af6ce"))])),
        (
            "properties",
            object(vec![
                (
                    "Name",
                    object(vec![(
                        "title",
                        Json::Array(vec![object(vec![(
                            "text",
                            object(vec![("content", text("Tuscan Kale"))]),
                        )])]),
                    )]),
                ),
                ("Price", object(vec![("number", Json::Number("2.5".to_owned()))])),
                ("Food group", object(vec![("select", object(vec![("name", text("Vegetable"))]))])),
                (
                    "Description",
                    object(vec![(
                        "rich_text",
                        Json::Array(vec![object(vec![(
                            "text",
                            object(vec![("content", text("A dark green leafy vegetable"))]),
                        )])]),
                    )]),
                ),
            ]),
        ),
        ("children", Json::Array(vec![])),
    ]))
    .unwrap();
}

fn testing_page() -> PageElement {
    let mut properties = PropertyMap::new();
    properties.insert(
        "Name".to_owned(),
        PropertyValue::Title(TitleValue::new("Testing Component")),
    );
    properties.insert(
        "Priority".to_owned(),
        PropertyValue::Select(SelectValue {
            select: SelectValueInternal { name: "Critical".to_owned() },
        }),
    );
    properties.insert(
        "MITRE".to_owned(),
        PropertyValue::MultiSelect(MultiSelectValue {
            multi_select: vec![MultiSelectValueInternal { name: "T1548.001 ".to_owned() }],
        }),
    );
    let children = vec![
        BlockElement::HeadingOne(RichTextValue {
            rich_text: vec![
                RichTextObject::new("This is the content of an alert."),
                RichTextObject::new("In multiple lines?"),
            ],
        }),
        BlockElement::HeadingOne(RichTextValue {
            rich_text: vec![
                RichTextObject::new("In multiple lines"),
                RichTextObject::new("In multiple lines?"),
            ],
        }),
    ];
    PageElement { parent: DatabaseParent { database_id: String::new() }, properties, children }
}

#[test]
fn check_serialization() {
    let new_page: PageElement = testing_page();
    let page_obj = to_string(&new_page).unwrap();
    println!("{}", page_obj)
}

#[test]
fn page_is_written_member_by_member() {
    let text = to_string(&testing_page()).unwrap();
    assert_eq!(
        text,
        concat_all(&[
            r#"{"parent":{"database_id":""},"#,
            r#""properties":{"#,
            r#""MITRE":{"multi_select":[{"name":"T1548.001 "}]},"#,
            r#""Name":{"title":[{"text":{"content":"Testing Component"}}]},"#,
            r#""Priority":{"select":{"name":"Critical"}}},"#,
            r#""children":["#,
            r#"{"heading_1":{"rich_text":[{"text":{"content":"This is the content of an alert."}},{"text":{"content":"In multiple lines?"}}]}},"#,
            r#"{"heading_1":{"rich_text":[{"text":{"content":"In multiple lines"}},{"text":{"content":"In multiple lines?"}}]}}"#,
            r#"]}"#,
        ])
    );
}

fn concat_all(parts: &[&str]) -> String {
    let mut all = String::new();
    for part in parts {
        all.push_str(part);
    }
    all
}

#[test]
fn database_keeps_what_it_read() {
    let database: DatabaseDefinition = from_str(&grocery_database("something")).unwrap();
    assert_eq!(database.id, "1234");
    assert_eq!(database.created_time, "1234");
    assert_eq!(database.last_edited_time, "1234");
    assert_eq!(database.properties.len(), 4);
    match database.properties.get("Grocery item") {
        Some(PropertyDefinition::Title(title)) => assert_eq!(title.id, "fy:{"),
        other => panic!("not a title: {:?}", other),
    }
    match database.properties.get("Price") {
        Some(PropertyDefinition::Number(number)) => {
            assert_eq!(number.id, "dia[");
            assert_eq!(number.number.format, "dollar");
        }
        other => panic!("not a number: {:?}", other),
    }
    match database.properties.get("Last ordered") {
        Some(PropertyDefinition::Date(date)) => assert_eq!(date.id, "]\\R["),
        other => panic!("not a date: {:?}", other),
    }
    assert!(matches!(database.properties.get("something"), Some(PropertyDefinition::Files)));
    assert!(database.properties.get("something2").is_none());
}

#[test]
fn database_is_written_with_its_kind_first() {
    let database: DatabaseDefinition = from_str(
        r#"{"id":"a","created_time":"b","last_edited_time":"c","properties":{"Z":{"type":"url"},"A":{"type":"select","id":"s","select":{"options":[]}}}}"#,
    )
    .unwrap();
    assert_eq!(
        to_string(&database).unwrap(),
        r#"{"object":"database","id":"a","created_time":"b","last_edited_time":"c","properties":{"A":{"type":"select","id":"s","select":{}},"Z":{"type":"url"}}}"#
    );
}

#[test]
fn same_databases_hash_alike_whatever_the_order_of_the_text() {
    let one: DatabaseDefinition = from_str(
        r#"{"id":"a","created_time":"b","last_edited_time":"c","properties":{"X":{"type":"url"},"Y":{"type":"email"}}}"#,
    )
    .unwrap();
    let other: DatabaseDefinition = from_str(
        r#"{"properties":{"Y":{"type":"email"},"X":{"type":"url"}},"last_edited_time":"c","created_time":"b","id":"a"}"#,
    )
    .unwrap();
    assert_eq!(hash_of(&one), hash_of(&other));
}

#[test]
fn databases_that_differ_in_a_kind_hash_apart() {
    let one: DatabaseDefinition = from_str(
        r#"{"id":"a","created_time":"b","last_edited_time":"c","properties":{"X":{"type":"url"}}}"#,
    )
    .unwrap();
    let other: DatabaseDefinition = from_str(
        r#"{"id":"a","created_time":"b","last_edited_time":"c","properties":{"X":{"type":"email"}}}"#,
    )
    .unwrap();
    assert_ne!(hash_of(&one), hash_of(&other));
}

#[test]
fn unknown_kind_of_property_is_kept_as_unknown() {
    let database: DatabaseDefinition = from_str(
        r#"{"id":"a","created_time":"b","last_edited_time":"c","properties":{"New":{"id":"1","type":"button","button":{}},"Name":{"id":"2","type":"title","title":{}}}}"#,
    )
    .unwrap();
    assert!(matches!(database.properties.get("New"), Some(PropertyDefinition::Null)));
    assert!(matches!(database.properties.get("Name"), Some(PropertyDefinition::Title(_))));
}

#[test]
fn property_without_kind_is_refused() {
    let result: Result<DatabaseDefinition, NotionError> = from_str(
        r#"{"id":"a","created_time":"b","last_edited_time":"c","properties":{"New":{"id":"1"}}}"#,
    );
    assert!(matches!(result, Err(NotionError::Serialization(_))));
    let result: Result<DatabaseDefinition, NotionError> = from_str(
        r#"{"id":"a","created_time":"b","last_edited_time":"c","properties":{"New":{"type":7}}}"#,
    );
    assert!(matches!(result, Err(NotionError::Serialization(_))));
}

#[test]
fn known_kind_with_wrong_content_is_refused() {
    let result: Result<DatabaseDefinition, NotionError> = from_str(
        r#"{"id":"a","created_time":"b","last_edited_time":"c","properties":{"Price":{"id":"1","type":"number"}}}"#,
    );
    match result {
        Err(NotionError::Serialization(e)) => {
            assert_eq!(e.to_string(), "properties: Price: missing member `number`")
        }
        other => panic!("not refused: {:?}", other),
    }
}

#[test]
fn refusal_of_a_page_names_the_way_to_the_fault() {
    let words = |text: &str| match from_str::<PageElement>(text) {
        Err(NotionError::Serialization(e)) => e.to_string(),
        other => panic!("not refused: {:?}", other),
    };
    assert_eq!(
        words(r#"{"parent":{"database_id":7},"properties":{},"children":[]}"#),
        "parent: database_id: not a text"
    );
    assert_eq!(
        words(r#"{"parent":{"database_id":"d"},"properties":{"Price":{"number":"2"}},"children":[]}"#),
        "properties: Price: no kind of value has this shape"
    );
    assert_eq!(
        words(r#"{"parent":{"database_id":"d"},"properties":{},"children":[{"heading_9":{}}]}"#),
        "children: item: heading_9: no kind of block has this name"
    );
    assert_eq!(
        words(r#"{"parent":{"database_id":"d"},"properties":{},"children":[{"code":{"rich_text":[{"text":{}}],"language":"c"}}]}"#),
        "children: item: code: rich_text: item: text: missing member `content`"
    );
    assert_eq!(words(r#"{"parent":{"database_id":"d"},"properties":[]}"#), "properties: not an object");
    assert_eq!(words(r#"[]"#), "missing member `parent`");
}

#[test]
fn database_without_a_member_is_refused() {
    let result: Result<DatabaseDefinition, NotionError> =
        from_str(r#"{"id":"a","created_time":"b","properties":{}}"#);
    match result {
        Err(NotionError::Serialization(e)) => {
            assert_eq!(e.to_string(), "missing member `last_edited_time`")
        }
        other => panic!("not refused: {:?}", other),
    }
}

#[test]
fn text_that_is_no_json_is_refused_with_the_parser_s_words() {
    let result: Result<DatabaseDefinition, NotionError> = from_str("{\"id\": ");
    match result {
        Err(NotionError::Serialization(e)) => {
            assert_eq!(e.to_string(), "EOF while parsing a value at line 1 column 7")
        }
        other => panic!("not refused: {:?}", other),
    }
}

#[test]
fn page_without_content_is_not_read() {
    let result: Result<PageElement, NotionError> =
        from_str(r#"{"parent":{"database_id":"d"},"properties":{}}"#);
    assert!(matches!(result, Err(NotionError::Serialization(_))));
    let page: PageElement =
        from_str(r#"{"parent":{"database_id":"d"},"properties":{},"children":[]}"#).unwrap();
    assert_eq!(page.parent.database_id, "d");
    assert!(page.properties.is_empty());
    assert!(page.children.is_empty());
}

#[test]
fn page_of_the_grocery_is_read_value_by_value() {
    let page: PageElement = from_str(
        r#"{"parent":{"database_id":"d9824bdc84454327be8b5b47500af6ce"},"properties":{"Name":{"title":[{"text":{"content":"Tuscan Kale"}}]},"Price":{"number":2.5},"Food group":{"select":{"name":"Vegetable"}},"Description":{"rich_text":[{"text":{"content":"A dark green leafy vegetable"}}]}},"children":[]}"#,
    )
    .unwrap();
    assert_eq!(page.parent.database_id, "d9824bdc84454327be8b5b47500af6ce");
    assert_eq!(page.properties.len(), 4);
    match page.properties.get("Name") {
        Some(PropertyValue::Title(title)) => {
            assert_eq!(title.title.len(), 1);
            assert_eq!(title.title[0].text.content, "Tuscan Kale");
            assert!(title.title[0].anotations.is_none());
        }
        other => panic!("not a title: {:?}", other),
    }
    match page.properties.get("Price") {
        Some(PropertyValue::Number(number)) => assert_eq!(number.number, "2.5"),
        other => panic!("not a number: {:?}", other),
    }
    match page.properties.get("Food group") {
        Some(PropertyValue::Select(select)) => assert_eq!(select.select.name, "Vegetable"),
        other => panic!("not a select: {:?}", other),
    }
    match page.properties.get("Description") {
        Some(PropertyValue::RichText(text)) => {
            assert_eq!(text.rich_text[0].text.content, "A dark green leafy vegetable")
        }
        other => panic!("not rich text: {:?}", other),
    }
}

#[test]
fn refusal_of_a_database_names_the_way_to_the_fault() {
    let words = |text: &str| match from_str::<DatabaseDefinition>(text) {
        Err(NotionError::Serialization(e)) => e.to_string(),
        other => panic!("not refused: {:?}", other),
    };
    assert_eq!(words(r#"{}"#), "missing member `id`");
    assert_eq!(words(r#"{"id":1}"#), "id: not a text");
    assert_eq!(words(r#"{"id":"a","created_time":"b","last_edited_time":"c"}"#), "missing member `properties`");
    assert_eq!(
        words(r#"{"id":"a","created_time":"b","last_edited_time":"c","properties":7}"#),
        "properties: not an object"
    );
    assert_eq!(
        words(r#"{"id":"a","created_time":"b","last_edited_time":"c","properties":{"A":{"type":"url"},"B":{}}}"#),
        "properties: B: missing member `type`"
    );
    assert_eq!(
        words(r#"{"id":"a","created_time":"b","last_edited_time":"c","properties":{"B":{"type":7}}}"#),
        "properties: B: type: not a text"
    );
    assert_eq!(
        words(r#"{"id":"a","created_time":"b","last_edited_time":"c","properties":{"S":{"type":"status","id":"s","status":{"options":[],"groups":[{"id":"g","name":"n","color":"c","option_ids":["o",2]}]}}}}"#),
        "properties: S: status: groups: item: option_ids: item: not a text"
    );
}

#[test]
fn rich_text_column_is_described_by_its_settings() {
    let database: DatabaseDefinition = from_str(
        r#"{"id":"a","created_time":"b","last_edited_time":"c","properties":{"Description":{"id":"d","type":"rich_text","rich_text":{}}}}"#,
    )
    .unwrap();
    match database.properties.get("Description") {
        Some(PropertyDefinition::RichText(text)) => assert_eq!(text.id, "d"),
        other => panic!("not rich text: {:?}", other),
    }
    assert_eq!(
        to_string(&database).unwrap(),
        r#"{"object":"database","id":"a","created_time":"b","last_edited_time":"c","properties":{"Description":{"type":"rich_text","id":"d","rich_text":{}}}}"#
    );
    let result: Result<DatabaseDefinition, NotionError> = from_str(
        r#"{"id":"a","created_time":"b","last_edited_time":"c","properties":{"Description":{"id":"d","type":"rich_text","rich_text":[]}}}"#,
    );
    match result {
        Err(NotionError::Serialization(e)) => {
            assert_eq!(e.to_string(), "properties: Description: rich_text: not an object")
        }
        other => panic!("not refused: {:?}", other),
    }
}
