use notion_alerter::block::{BlockElement, BlockObject, CodeBlock};
use notion_alerter::client::{from_str, to_string, NotionError};
use notion_alerter::codec::{decode_list, encode_list, JsonCodec};
use notion_alerter::json::Json;
use notion_alerter::map::PropertyMap;
use notion_alerter::page::{DatabaseParent, PageElement, PropertyValue};
use notion_alerter::properties::{
    CreatedByInternal, CreatedByProperty, CreatedTimeValue, DateValue, DateValueInternal,
    LastEditedByInternal, LastEditedByProperty, LastEditedTimeInternal, LastEditedTimeProperty,
    MultiSelectValue, MultiSelectValueInternal, NumberValue, PeopleInternal, PeopleProperty,
    RichTextAnotation, RichTextObject, RichTextValue, SelectValue, SelectValueInternal,
    StatusValue, TextValueInternal, TitleValue,
};

fn back<T: JsonCodec>(value: &T) -> T {
    from_str(&to_string(value).unwrap()).unwrap()
}

fn comes_back<T: JsonCodec>(value: &T, expected: &str) {
    let text = to_string(value).unwrap();
    assert_eq!(text, expected);
    assert_eq!(to_string(&back(value)).unwrap(), expected);
}

#[test]
fn plain_run_has_no_style() {
    let run = RichTextObject::new("hello");
    assert_eq!(run.text.content, "hello");
    assert!(run.anotations.is_none());
    let owned = RichTextObject::new_owned("hello".to_owned());
    assert_eq!(owned.text.content, "hello");
    assert!(owned.anotations.is_none());
    assert_eq!(to_string(&run).unwrap(), r#"{"text":{"content":"hello"}}"#);
}

#[test]
fn bold_run_sets_bold_alone() {
    let run = RichTextObject::bold("hello");
    assert_eq!(run.text.content, "hello");
    let style = run.anotations.as_ref().unwrap();
    assert_eq!(style.bold, Some(true));
    assert!(style.italic.is_none());
    assert!(style.color.is_none());
    assert!(style.strikethrough.is_none());
    assert!(style.underline.is_none());
    assert!(style.code.is_none());
    assert_eq!(
        to_string(&run).unwrap(),
        r#"{"text":{"content":"hello"},"annotations":{"bold":true}}"#
    );
}

#[test]
fn code_run_sets_code_alone() {
    let run = RichTextObject::code("x = 1");
    let style = run.anotations.as_ref().unwrap();
    assert_eq!(style.code, Some(true));
    assert!(style.bold.is_none());
    assert!(style.italic.is_none());
    assert!(style.color.is_none());
    assert!(style.strikethrough.is_none());
    assert!(style.underline.is_none());
    assert_eq!(
        to_string(&run).unwrap(),
        r#"{"text":{"content":"x = 1"},"annotations":{"code":true}}"#
    );
}

#[test]
fn title_is_one_plain_run() {
    let title = TitleValue::new("Tuscan Kale");
    assert_eq!(title.title.len(), 1);
    assert_eq!(title.title[0].text.content, "Tuscan Kale");
    assert!(title.title[0].anotations.is_none());
}

#[test]
fn date_starts_and_has_no_end() {
    let date = DateValue::new("2023-01-02T03:04:05Z".to_owned());
    assert_eq!(date.date.start, "2023-01-02T03:04:05Z");
    assert!(date.date.end.is_none());
    assert_eq!(to_string(&date).unwrap(), r#"{"date":{"start":"2023-01-02T03:04:05Z"}}"#);
}

#[test]
fn headings_and_code_blocks() {
    assert_eq!(
        to_string(&BlockElement::heading_one("a")).unwrap(),
        r#"{"heading_1":{"rich_text":[{"text":{"content":"a"}}]}}"#
    );
    assert_eq!(
        to_string(&BlockElement::heading_two("b")).unwrap(),
        r#"{"heading_2":{"rich_text":[{"text":{"content":"b"}}]}}"#
    );
    assert_eq!(
        to_string(&BlockElement::heading_three("c")).unwrap(),
        r#"{"heading_3":{"rich_text":[{"text":{"content":"c"}}]}}"#
    );
    assert_eq!(
        to_string(&BlockElement::paragraph("p")).unwrap(),
        r#"{"paragraph":{"rich_text":[{"text":{"content":"p"}}]}}"#
    );
    match BlockElement::code("let x;", None) {
        BlockElement::Code(CodeBlock { rich_text, language }) => {
            assert_eq!(rich_text.len(), 1);
            assert_eq!(rich_text[0].text.content, "let x;");
            assert!(rich_text[0].anotations.is_none());
            assert_eq!(language, "plain text");
        }
        other => panic!("{:?}", other),
    }
    match BlockElement::code("let x;", Some("rust".to_owned())) {
        BlockElement::Code(code) => assert_eq!(code.language, "rust"),
        other => panic!("{:?}", other),
    }
    match BlockElement::code_owned("{}".to_owned(), None) {
        BlockElement::Code(code) => {
            assert_eq!(code.rich_text[0].text.content, "{}");
            assert_eq!(code.language, "plain text");
        }
        other => panic!("{:?}", other),
    }
    match BlockElement::code_owned("{}".to_owned(), Some("json".to_owned())) {
        BlockElement::Code(code) => assert_eq!(code.language, "json"),
        other => panic!("{:?}", other),
    }
}

#[test]
fn runs_come_back() {
    comes_back(&RichTextObject::new("plain"), r#"{"text":{"content":"plain"}}"#);
    comes_back(
        &RichTextObject::bold("b"),
        r#"{"text":{"content":"b"},"annotations":{"bold":true}}"#,
    );
    let all = RichTextObject {
        text: TextValueInternal { content: "all \"quoted\" \u{e9}".to_owned() },
        anotations: Some(RichTextAnotation {
            italic: Some(false),
            bold: Some(true),
            color: Some("red".to_owned()),
            strikethrough: Some(false),
            underline: Some(true),
            code: Some(false),
        }),
    };
    comes_back(
        &all,
        "{\"text\":{\"content\":\"all \\\"quoted\\\" \u{e9}\"},\"annotations\":{\"italic\":false,\"bold\":true,\"color\":\"red\",\"strikethrough\":false,\"underline\":true,\"code\":false}}",
    );
    let again = back(&all);
    assert_eq!(again.text.content, "all \"quoted\" \u{e9}");
    let style = again.anotations.unwrap();
    assert_eq!(style.italic, Some(false));
    assert_eq!(style.bold, Some(true));
    assert_eq!(style.color, Some("red".to_owned()));
    assert_eq!(style.strikethrough, Some(false));
    assert_eq!(style.underline, Some(true));
    assert_eq!(style.code, Some(false));
    let empty_style =
        RichTextObject { text: TextValueInternal::default(), anotations: Some(RichTextAnotation::default()) };
    comes_back(&empty_style, r#"{"text":{"content":""},"annotations":{}}"#);
    assert!(back(&empty_style).anotations.is_some());
}

#[test]
fn values_with_content_come_back() {
    comes_back(
        &PropertyValue::Title(TitleValue::new("t")),
        r#"{"title":[{"text":{"content":"t"}}]}"#,
    );
    assert!(matches!(back(&PropertyValue::Title(TitleValue::new("t"))), PropertyValue::Title(_)));
    let rich = PropertyValue::RichText(RichTextValue {
        rich_text: vec![RichTextObject::new("a"), RichTextObject::code("b")],
    });
    comes_back(
        &rich,
        r#"{"rich_text":[{"text":{"content":"a"}},{"text":{"content":"b"},"annotations":{"code":true}}]}"#,
    );
    assert!(matches!(back(&rich), PropertyValue::RichText(_)));
    let date = PropertyValue::Date(DateValue {
        date: DateValueInternal { start: "s".to_owned(), end: Some("e".to_owned()) },
    });
    comes_back(&date, r#"{"date":{"start":"s","end":"e"}}"#);
    match back(&date) {
        PropertyValue::Date(d) => assert_eq!(d.date.end, Some("e".to_owned())),
        other => panic!("{:?}", other),
    }
    let number = PropertyValue::Number(NumberValue { number: "2.5".to_owned() });
    comes_back(&number, r#"{"number":2.5}"#);
    match back(&number) {
        PropertyValue::Number(n) => assert_eq!(n.number, "2.5"),
        other => panic!("{:?}", other),
    }
    let select = PropertyValue::Select(SelectValue {
        select: SelectValueInternal { name: "Vegetable".to_owned() },
    });
    comes_back(&select, r#"{"select":{"name":"Vegetable"}}"#);
    assert!(matches!(back(&select), PropertyValue::Select(_)));
    let multi = PropertyValue::MultiSelect(MultiSelectValue {
        multi_select: vec![
            MultiSelectValueInternal { name: "a".to_owned() },
            MultiSelectValueInternal { name: "b".to_owned() },
        ],
    });
    comes_back(&multi, r#"{"multi_select":[{"name":"a"},{"name":"b"}]}"#);
    assert!(matches!(back(&multi), PropertyValue::MultiSelect(_)));
    let people =
        PropertyValue::People(PeopleProperty { id: "p".to_owned(), people: PeopleInternal {} });
    comes_back(&people, r#"{"id":"p","people":{}}"#);
    assert!(matches!(back(&people), PropertyValue::People(_)));
    let created =
        PropertyValue::CreatedTime(CreatedTimeValue { created_time: "2020".to_owned() });
    comes_back(&created, r#"{"created_time":"2020"}"#);
    assert!(matches!(back(&created), PropertyValue::CreatedTime(_)));
    let editor = PropertyValue::LastEditedBy(LastEditedByProperty {
        id: "x".to_owned(),
        last_edited_by: LastEditedByInternal {},
    });
    comes_back(&editor, r#"{"id":"x","last_edited_by":{}}"#);
    assert!(matches!(back(&editor), PropertyValue::LastEditedBy(_)));
    let creator = PropertyValue::CreatedBy(CreatedByProperty {
        id: "y".to_owned(),
        created_by: CreatedByInternal {},
    });
    comes_back(&creator, r#"{"id":"y","created_by":{}}"#);
    assert!(matches!(back(&creator), PropertyValue::CreatedBy(_)));
    let edited = PropertyValue::LastEditedTime(LastEditedTimeProperty {
        id: "z".to_owned(),
        last_edited_time: LastEditedTimeInternal {},
    });
    comes_back(&edited, r#"{"id":"z","last_edited_time":{}}"#);
    assert!(matches!(back(&edited), PropertyValue::LastEditedTime(_)));
    let status = PropertyValue::Status(StatusValue { name: "Open".to_owned() });
    comes_back(&status, r#"{"name":"Open"}"#);
    match back(&status) {
        PropertyValue::Status(s) => assert_eq!(s.name, "Open"),
        other => panic!("{:?}", other),
    }
}

#[test]
fn number_that_is_no_json_number_is_not_sent() {
    let value = PropertyValue::Number(NumberValue { number: "abc".to_owned() });
    assert!(matches!(to_string(&value), Err(NotionError::Serialization(_))));
}

#[test]
fn kinds_without_content_come_back() {
    comes_back(&PropertyValue::Files, r#"{"files":null}"#);
    comes_back(&PropertyValue::CheckBox, r#"{"checkbox":null}"#);
    comes_back(&PropertyValue::Url, r#"{"url":null}"#);
    comes_back(&PropertyValue::Email, r#"{"email":null}"#);
    comes_back(&PropertyValue::PhoneNumber, r#"{"phone_number":null}"#);
    comes_back(&PropertyValue::Formula, r#"{"formula":null}"#);
    comes_back(&PropertyValue::Relation, r#"{"relation":null}"#);
    comes_back(&PropertyValue::Rollup, r#"{"Rollup":null}"#);
    assert!(matches!(back(&PropertyValue::Files), PropertyValue::Files));
    assert!(matches!(back(&PropertyValue::CheckBox), PropertyValue::CheckBox));
    assert!(matches!(back(&PropertyValue::Url), PropertyValue::Url));
    assert!(matches!(back(&PropertyValue::Email), PropertyValue::Email));
    assert!(matches!(back(&PropertyValue::PhoneNumber), PropertyValue::PhoneNumber));
    assert!(matches!(back(&PropertyValue::Formula), PropertyValue::Formula));
    assert!(matches!(back(&PropertyValue::Relation), PropertyValue::Relation));
    assert!(matches!(back(&PropertyValue::Rollup), PropertyValue::Rollup));
}

#[test]
fn kind_without_content_is_known_by_its_member_whatever_that_holds() {
    assert!(matches!(
        from_str::<PropertyValue>(r#"{"checkbox": true}"#),
        Ok(PropertyValue::CheckBox)
    ));
    assert!(matches!(
        from_str::<PropertyValue>(r#"{"url": "https://example.org"}"#),
        Ok(PropertyValue::Url)
    ));
    assert!(matches!(
        from_str::<PropertyValue>(r#"{"files": [], "id": "f", "type": "files"}"#),
        Ok(PropertyValue::Files)
    ));
    assert!(matches!(
        from_str::<PropertyValue>(r#"{"email": null, "number": 1}"#),
        Ok(PropertyValue::Email)
    ));
    assert!(matches!(
        from_str::<PropertyValue>(r#"{"relation": [], "checkbox": false}"#),
        Ok(PropertyValue::CheckBox)
    ));
    assert!(matches!(
        from_str::<PropertyValue>(r#"{"rollup": {}}"#),
        Err(NotionError::Serialization(_))
    ));
}

#[test]
fn value_that_stands_for_nothing_does_not_come_back() {
    assert_eq!(to_string(&PropertyValue::Null).unwrap(), "null");
    assert!(matches!(from_str::<PropertyValue>("null"), Err(NotionError::Serialization(_))));
    assert!(matches!(PropertyValue::default(), PropertyValue::Null));
}

#[test]
fn blocks_come_back() {
    comes_back(
        &BlockElement::heading_one("h"),
        r#"{"heading_1":{"rich_text":[{"text":{"content":"h"}}]}}"#,
    );
    assert!(matches!(back(&BlockElement::heading_one("h")), BlockElement::HeadingOne(_)));
    assert!(matches!(back(&BlockElement::heading_two("h")), BlockElement::HeadingTwo(_)));
    assert!(matches!(back(&BlockElement::heading_three("h")), BlockElement::HeadingThree(_)));
    assert!(matches!(back(&BlockElement::paragraph("h")), BlockElement::Paragraph(_)));
    comes_back(
        &BlockElement::code("c", Some("rust".to_owned())),
        r#"{"code":{"rich_text":[{"text":{"content":"c"}}],"language":"rust"}}"#,
    );
    match back(&BlockElement::code("c", None)) {
        BlockElement::Code(code) => {
            assert_eq!(code.language, "plain text");
            assert_eq!(code.rich_text[0].text.content, "c");
        }
        other => panic!("{:?}", other),
    }
}

#[test]
fn block_that_stands_for_nothing_does_not_come_back() {
    assert_eq!(to_string(&BlockElement::Null).unwrap(), r#""Null""#);
    assert!(matches!(
        from_str::<BlockElement>(r#""Null""#),
        Err(NotionError::Serialization(_))
    ));
    assert!(matches!(BlockElement::default(), BlockElement::Null));
}

#[test]
fn only_an_object_with_one_known_member_is_a_block() {
    for text in [
        r#"{}"#,
        r#"{"heading_4":{"rich_text":[]}}"#,
        r#"{"heading_1":{"rich_text":[]},"heading_2":{"rich_text":[]}}"#,
        r#"{"heading_1":{"rich_text":[]},"extra":1}"#,
        r#"{"heading_1":{}}"#,
        r#"{"code":{"rich_text":[]}}"#,
        r#""heading_1""#,
        r#"[]"#,
        r#"null"#,
    ] {
        assert!(
            matches!(from_str::<BlockElement>(text), Err(NotionError::Serialization(_))),
            "{}",
            text
        );
    }
    assert!(matches!(
        from_str::<BlockElement>(r#"{"heading_1":{"rich_text":[],"color":"red"}}"#),
        Ok(BlockElement::HeadingOne(_))
    ));
}

#[test]
fn block_object_says_what_it_is() {
    assert_eq!(to_string(&BlockObject {}).unwrap(), r#"{"object":"block"}"#);
    assert!(from_str::<BlockObject>(r#"{"object":"block","id":"1"}"#).is_ok());
    assert!(from_str::<BlockObject>(r#"{}"#).is_ok());
    assert!(from_str::<BlockObject>(r#"[]"#).is_err());
}

#[test]
fn unset_members_are_left_out() {
    let run = to_string(&RichTextObject::new("a")).unwrap();
    assert!(!run.contains("annotations"));
    assert!(!run.contains("null"));
    let style = to_string(&RichTextAnotation::default()).unwrap();
    assert_eq!(style, "{}");
    let style = to_string(&RichTextAnotation { underline: Some(true), ..Default::default() }).unwrap();
    assert_eq!(style, r#"{"underline":true}"#);
    let date = to_string(&DateValueInternal { start: "s".to_owned(), end: None }).unwrap();
    assert_eq!(date, r#"{"start":"s"}"#);
    let page = PageElement {
        parent: DatabaseParent { database_id: "d".to_owned() },
        properties: PropertyMap::new(),
        children: vec![],
    };
    assert_eq!(to_string(&page).unwrap(), r#"{"parent":{"database_id":"d"},"properties":{}}"#);
    let page = PageElement {
        parent: DatabaseParent { database_id: "d".to_owned() },
        properties: PropertyMap::new(),
        children: vec![BlockElement::paragraph("p")],
    };
    assert!(to_string(&page).unwrap().contains(r#""children":[{"paragraph""#));
}

#[test]
fn null_stands_for_an_unset_member() {
    let run: RichTextObject =
        from_str(r#"{"text":{"content":"a"},"annotations":null}"#).unwrap();
    assert!(run.anotations.is_none());
    let style: RichTextAnotation = from_str(r#"{"bold":null,"code":true,"more":1}"#).unwrap();
    assert!(style.bold.is_none());
    assert_eq!(style.code, Some(true));
    let date: DateValue = from_str(r#"{"date":{"start":"s","end":null}}"#).unwrap();
    assert!(date.date.end.is_none());
    assert!(from_str::<RichTextAnotation>(r#"{"bold":"yes"}"#).is_err());
    assert!(from_str::<RichTextAnotation>(r#"[]"#).is_err());
    assert!(from_str::<DateValue>(r#"{"date":{"end":"e"}}"#).is_err());
}

#[test]
fn style_is_read_under_its_name_alone() {
    let run: RichTextObject =
        from_str(r#"{"text":{"content":"a"},"annotations":{"italic":true}}"#).unwrap();
    assert_eq!(run.anotations.unwrap().italic, Some(true));
    let run: RichTextObject =
        from_str(r#"{"text":{"content":"a"},"anotations":{"italic":true}}"#).unwrap();
    assert!(run.anotations.is_none());
    assert!(from_str::<RichTextObject>(r#"{"text":{"content":"a"},"annotations":7}"#).is_err());
}

#[test]
fn value_is_told_by_the_member_that_is_there() {
    match from_str::<PropertyValue>(r#"{"number": 2.5}"#) {
        Ok(PropertyValue::Number(n)) => assert_eq!(n.number, "2.5"),
        other => panic!("{:?}", other),
    }
    match from_str::<PropertyValue>(r#"{"select": {"name": "Vegetable"}}"#) {
        Ok(PropertyValue::Select(s)) => assert_eq!(s.select.name, "Vegetable"),
        other => panic!("{:?}", other),
    }
    assert!(matches!(from_str::<PropertyValue>(r#"{"files": null}"#), Ok(PropertyValue::Files)));
    assert!(matches!(
        from_str::<PropertyValue>(r#"{"multi_select": []}"#),
        Ok(PropertyValue::MultiSelect(_))
    ));
    assert!(matches!(
        from_str::<PropertyValue>(r#"{"name": "Open"}"#),
        Ok(PropertyValue::Status(_))
    ));
}

#[test]
fn value_of_no_known_shape_is_refused() {
    for text in [
        r#"{"check_box": true}"#,
        r#"null"#,
        r#"{}"#,
        r#"{"number": "2.5"}"#,
        r#"{"select": "Vegetable"}"#,
        r#"{"title": "Tuscan Kale"}"#,
        r#"{"people": {}}"#,
        r#"[]"#,
        r#"7"#,
        r#""title""#,
    ] {
        assert!(
            matches!(from_str::<PropertyValue>(text), Err(NotionError::Serialization(_))),
            "{}",
            text
        );
    }
}

#[test]
fn first_kind_that_fits_is_taken() {
    assert!(matches!(
        from_str::<PropertyValue>(r#"{"number": 1, "title": []}"#),
        Ok(PropertyValue::Title(_))
    ));
    assert!(matches!(
        from_str::<PropertyValue>(r#"{"title": 1, "number": 1}"#),
        Ok(PropertyValue::Number(_))
    ));
    assert!(matches!(
        from_str::<PropertyValue>(r#"{"select": {"name": "a"}, "rich_text": [], "date": {"start": "s"}}"#),
        Ok(PropertyValue::RichText(_))
    ));
    assert!(matches!(
        from_str::<PropertyValue>(r#"{"name": "n", "id": "i", "created_by": {}, "last_edited_by": {}}"#),
        Ok(PropertyValue::LastEditedBy(_))
    ));
    assert!(matches!(
        from_str::<PropertyValue>(r#"{"name": "n", "created_time": "c"}"#),
        Ok(PropertyValue::CreatedTime(_))
    ));
}

#[test]
fn lists_are_read_item_by_item() {
    let list = vec![RichTextObject::new("a"), RichTextObject::bold("b")];
    let json = encode_list(&list);
    let again: Vec<RichTextObject> = decode_list(&json).unwrap();
    assert_eq!(again.len(), 2);
    assert_eq!(again[0].text.content, "a");
    assert_eq!(again[1].anotations.as_ref().unwrap().bold, Some(true));
    assert_eq!(decode_list::<RichTextObject>(&Json::Null).unwrap_err().message, "not an array");
    assert_eq!(
        decode_list::<RichTextObject>(&Json::Array(vec![Json::Null])).unwrap_err().message,
        "item: missing member `text`"
    );
    assert_eq!(decode_list::<String>(&Json::Array(vec![])).unwrap().len(), 0);
}

fn words<T: JsonCodec + std::fmt::Debug>(text: &str) -> String {
    match from_str::<T>(text) {
        Err(NotionError::Serialization(e)) => e.to_string(),
        other => panic!("not refused: {:?}", other),
    }
}

#[test]
fn refusal_says_what_was_found_wanting_first() {
    assert_eq!(words::<RichTextAnotation>("[]"), "not an object");
    assert_eq!(
        words::<RichTextAnotation>(r#"{"code":1,"bold":"x"}"#),
        "bold: neither true nor false"
    );
    assert_eq!(words::<RichTextAnotation>(r#"{"color":true}"#), "color: not a text");
    assert_eq!(words::<RichTextObject>(r#"{}"#), "missing member `text`");
    assert_eq!(
        words::<RichTextObject>(r#"{"text":{"content":"a"},"annotations":[]}"#),
        "annotations: not an object"
    );
    assert_eq!(words::<DateValue>(r#"{"date":{"end":"e"}}"#), "date: missing member `start`");
    assert_eq!(words::<DateValue>(r#"{"date":{"start":"s","end":1}}"#), "date: end: not a text");
    assert_eq!(words::<NumberValue>(r#"{"number":"2"}"#), "number: not a number");
    assert_eq!(words::<NumberValue>(r#"{}"#), "missing member `number`");
    assert_eq!(words::<PeopleProperty>(r#"{"people":{}}"#), "missing member `id`");
    assert_eq!(words::<PeopleProperty>(r#"{"id":"p","people":1}"#), "people: not an object");
    assert_eq!(words::<PropertyValue>(r#"{}"#), "no kind of value has this shape");
    assert_eq!(words::<BlockElement>(r#"7"#), "not an object");
    assert_eq!(words::<BlockElement>(r#"{}"#), "not an object with one member");
    assert_eq!(
        words::<BlockElement>(r#"{"paragraph":{"rich_text":{}}}"#),
        "paragraph: rich_text: not an array"
    );
    assert_eq!(
        words::<BlockElement>(r#"{"code":{"rich_text":[]}}"#),
        "code: missing member `language`"
    );
    assert_eq!(
        words::<MultiSelectValue>(r#"{"multi_select":[{"name":"a"},{"name":1},{}]}"#),
        "multi_select: item: name: not a text"
    );
}
