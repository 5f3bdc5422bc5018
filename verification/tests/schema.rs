use notion_alerter::client::{check_database_body, check_properties, NotionError};
use notion_alerter::database::{DatabaseDefinition, PropertyDefinition};
use notion_alerter::map::PropertyMap;
use notion_alerter::properties::{
    DateInternal, DateProperty, MultiSelectInternal, MultiSelectProperty, NumberInternal,
    NumberProperty, SelectInternal, SelectProperty, StatusInternal, StatusProperty, TitleInternal,
    TitleProperty,
};

fn title() -> PropertyDefinition {
    PropertyDefinition::Title(TitleProperty { id: "t".to_owned(), title: TitleInternal {} })
}

fn select() -> PropertyDefinition {
    PropertyDefinition::Select(SelectProperty { id: "s".to_owned(), select: SelectInternal {} })
}

fn multi_select() -> PropertyDefinition {
    PropertyDefinition::MultiSelect(MultiSelectProperty {
        id: "m".to_owned(),
        multi_select: MultiSelectInternal {},
    })
}

fn status() -> PropertyDefinition {
    PropertyDefinition::Status(StatusProperty {
        id: "u".to_owned(),
        status: StatusInternal { options: vec![], groups: vec![] },
    })
}

fn date() -> PropertyDefinition {
    PropertyDefinition::Date(DateProperty { id: "d".to_owned(), date: DateInternal {} })
}

fn number() -> PropertyDefinition {
    PropertyDefinition::Number(NumberProperty {
        id: "n".to_owned(),
        number: NumberInternal { format: "dollar".to_owned() },
    })
}

fn database(properties: Vec<(&str, PropertyDefinition)>) -> DatabaseDefinition {
    let mut map = PropertyMap::new();
    for (name, definition) in properties {
        map.insert(name.to_owned(), definition);
    }
    DatabaseDefinition {
        id: "1".to_owned(),
        created_time: "2".to_owned(),
        last_edited_time: "3".to_owned(),
        properties: map,
    }
}

#[test]
fn database_with_the_six_properties_is_valid() {
    let schema = database(vec![
        ("Name", title()),
        ("Priority", select()),
        ("MITRE", multi_select()),
        ("Tags", multi_select()),
        ("Status", status()),
        ("Fired", date()),
    ]);
    assert!(check_properties(&schema));
}

#[test]
fn more_properties_do_no_harm() {
    let schema = database(vec![
        ("Name", title()),
        ("Priority", select()),
        ("MITRE", multi_select()),
        ("Tags", multi_select()),
        ("Status", status()),
        ("Fired", date()),
        ("Price", number()),
        ("Unknown", PropertyDefinition::Null),
    ]);
    assert!(check_properties(&schema));
}

#[test]
fn priority_of_the_wrong_kind_is_invalid() {
    let schema = database(vec![
        ("Name", title()),
        ("Priority", number()),
        ("MITRE", multi_select()),
        ("Tags", multi_select()),
        ("Status", status()),
        ("Fired", date()),
    ]);
    assert!(!check_properties(&schema));
}

#[test]
fn missing_status_is_invalid() {
    let schema = database(vec![
        ("Name", title()),
        ("Priority", select()),
        ("MITRE", multi_select()),
        ("Tags", multi_select()),
        ("Fired", date()),
    ]);
    assert!(!check_properties(&schema));
}

#[test]
fn each_of_the_six_is_asked_for() {
    let names = ["Name", "Priority", "MITRE", "Tags", "Status", "Fired"];
    for left_out in names {
        let mut properties = vec![];
        for name in names {
            if name != left_out {
                let definition = match name {
                    "Name" => title(),
                    "Priority" => select(),
                    "MITRE" | "Tags" => multi_select(),
                    "Status" => status(),
                    _ => date(),
                };
                properties.push((name, definition));
            }
        }
        assert!(!check_properties(&database(properties)), "without {}", left_out);
    }
}

#[test]
fn each_of_the_six_must_be_of_its_kind() {
    let names = ["Name", "Priority", "MITRE", "Tags", "Status", "Fired"];
    for wrong in names {
        let mut properties = vec![];
        for name in names {
            let definition = if name == wrong {
                PropertyDefinition::Files
            } else {
                match name {
                    "Name" => title(),
                    "Priority" => select(),
                    "MITRE" | "Tags" => multi_select(),
                    "Status" => status(),
                    _ => date(),
                }
            };
            properties.push((name, definition));
        }
        assert!(!check_properties(&database(properties)), "with {} as files", wrong);
    }
}

#[test]
fn names_are_told_apart_by_case() {
    let schema = database(vec![
        ("name", title()),
        ("Priority", select()),
        ("MITRE", multi_select()),
        ("Tags", multi_select()),
        ("Status", status()),
        ("Fired", date()),
    ]);
    assert!(!check_properties(&schema));
}

#[test]
fn empty_database_is_invalid() {
    assert!(!check_properties(&database(vec![])));
    assert!(!check_properties(&DatabaseDefinition::default()));
}

const VALID_BODY: &str = r#"{
    "object": "database",
    "id": "668d797c-76fa-4934-9b05-ad288df2d136",
    "created_time": "2020-03-17T19:10:04.968Z",
    "last_edited_time": "2020-03-17T21:49:37.913Z",
    "title": [{"type": "text", "text": {"content": "Alerts"}}],
    "properties": {
        "Name": {"id": "title", "type": "title", "title": {}},
        "Priority": {"id": "a", "type": "select", "select": {"options": [{"id": "1", "name": "Low", "color": "gray"}]}},
        "MITRE": {"id": "b", "type": "multi_select", "multi_select": {"options": []}},
        "Tags": {"id": "c", "type": "multi_select", "multi_select": {"options": []}},
        "Status": {"id": "d", "type": "status", "status": {
            "options": [{"id": "o1", "name": "Open", "color": "red"}],
            "groups": [{"id": "g1", "name": "To-do", "color": "gray", "option_ids": ["o1"]}]
        }},
        "Fired": {"id": "e", "type": "date", "date": {}},
        "Owner": {"id": "f", "type": "people", "people": {}},
        "Score": {"id": "g", "type": "unique_id", "unique_id": {"prefix": null}}
    }
}"#;

#[test]
fn body_of_a_valid_database_is_valid() {
    assert!(matches!(check_database_body(VALID_BODY), Ok(true)));
}

#[test]
fn body_with_priority_as_number_is_invalid() {
    let body = VALID_BODY.replace(
        r#""Priority": {"id": "a", "type": "select", "select": {"options": [{"id": "1", "name": "Low", "color": "gray"}]}}"#,
        r#""Priority": {"id": "a", "type": "number", "number": {"format": "number"}}"#,
    );
    assert_ne!(body, VALID_BODY);
    assert!(matches!(check_database_body(&body), Ok(false)));
}

#[test]
fn body_without_status_is_invalid() {
    let body = VALID_BODY.replace(r#""Status": {"id": "d", "type": "status", "status": {"#, r#""State": {"id": "d", "type": "status", "status": {"#);
    assert_ne!(body, VALID_BODY);
    assert!(matches!(check_database_body(&body), Ok(false)));
}

#[test]
fn body_that_describes_no_database_is_an_error() {
    assert!(matches!(check_database_body("not json"), Err(NotionError::Serialization(_))));
    assert!(matches!(check_database_body("[]"), Err(NotionError::Serialization(_))));
    assert!(matches!(
        check_database_body(r#"{"object":"error","status":404}"#),
        Err(NotionError::Serialization(_))
    ));
}

#[test]
fn status_keeps_its_options_and_groups() {
    let database: DatabaseDefinition = notion_alerter::client::from_str(VALID_BODY).unwrap();
    match database.properties.get("Status") {
        Some(PropertyDefinition::Status(status)) => {
            assert_eq!(status.id, "d");
            assert_eq!(status.status.options.len(), 1);
            assert_eq!(status.status.options[0].name, "Open");
            assert_eq!(status.status.options[0].color, "red");
            assert_eq!(status.status.groups.len(), 1);
            assert_eq!(status.status.groups[0].option_ids, vec!["o1".to_owned()]);
        }
        other => panic!("not a status: {:?}", other),
    }
    assert!(matches!(database.properties.get("Owner"), Some(PropertyDefinition::People(_))));
    assert!(matches!(database.properties.get("Score"), Some(PropertyDefinition::Null)));
}
