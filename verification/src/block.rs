//! The blocks that make up the content of a page.

use vstd::prelude::*;
use crate::codec::{
    encode_list, get_required, get_required_list, lemma_list_round_trip, list_encoding,
    list_faithful, models, no_members, required, required_list, required_list_refusal,
    required_refusal, under, DecodeError, JsonCodec, RoundTrip,
};
use crate::json::{lemma_lookup_push, members_view, push_member, Json, JsonModel};
use crate::properties::{RichTextModel, RichTextObject, RichTextValue};
use crate::text::same_key;

verus! {

/// What every block is: an object of the kind `block`.
#[derive(Default, Debug)]
pub struct BlockObject {}

impl View for BlockObject {
    type V = ();

    open spec fn view(&self) -> () {
        ()
    }
}

impl JsonCodec for BlockObject {
    open spec fn encoding(model: ()) -> JsonModel {
        JsonModel::Object(seq![("object"@, JsonModel::Text("block"@))])
    }

    open spec fn decoding(json: JsonModel) -> Option<()> {
        if json is Object {
            Some(())
        } else {
            None
        }
    }

    open spec fn refusal(json: JsonModel) -> Seq<char> {
        "not an object"@
    }

    fn to_json(&self) -> (json: Json) {
        let mut members = no_members();
        push_member(&mut members, "object", Json::text("block"));
        Json::object(members)
    }

    fn from_json(json: &Json) -> (value: Result<Self, DecodeError>) {
        match json.as_object() {
            Some(_) => Ok(BlockObject {}),
            None => Err(DecodeError::new("not an object")),
        }
    }
}

impl RoundTrip for BlockObject {
    open spec fn faithful(model: ()) -> bool {
        true
    }

    proof fn lemma_round_trip(model: ()) {
    }
}

/// A block of code: its text and the language it is written in.
#[derive(Default, Debug, Hash)]
pub struct CodeBlock {
    pub rich_text: Vec<RichTextObject>,
    pub language: String,
}

/// The mathematical value of a [`CodeBlock`].
pub struct CodeBlockModel {
    pub rich_text: Seq<RichTextModel>,
    pub language: Seq<char>,
}

impl View for CodeBlock {
    type V = CodeBlockModel;

    open spec fn view(&self) -> CodeBlockModel {
        CodeBlockModel {
            rich_text: models(self.rich_text@),
            language: self.language@,
        }
    }
}

impl JsonCodec for CodeBlock {
    open spec fn encoding(model: CodeBlockModel) -> JsonModel {
        JsonModel::Object(
            Seq::empty()
                .push(("rich_text"@, list_encoding::<RichTextObject>(model.rich_text)))
                .push(("language"@, String::encoding(model.language))),
        )
    }

    open spec fn decoding(json: JsonModel) -> Option<CodeBlockModel> {
        let rich_text = required_list::<RichTextObject>(json, "rich_text"@);
        let language = required::<String>(json, "language"@);
        if rich_text is Some && language is Some {
            Some(CodeBlockModel { rich_text: rich_text.unwrap(), language: language.unwrap() })
        } else {
            None
        }
    }

    open spec fn refusal(json: JsonModel) -> Seq<char> {
        if required_list::<RichTextObject>(json, "rich_text"@) is None {
            required_list_refusal::<RichTextObject>(json, "rich_text"@)
        } else {
            required_refusal::<String>(json, "language"@)
        }
    }

    fn to_json(&self) -> (json: Json) {
        let mut members = no_members();
        push_member(&mut members, "rich_text", encode_list(&self.rich_text));
        push_member(&mut members, "language", self.language.to_json());
        Json::object(members)
    }

    fn from_json(json: &Json) -> (value: Result<Self, DecodeError>) {
        let rich_text = get_required_list::<RichTextObject>(json, "rich_text");
        let language = get_required::<String>(json, "language");
        match (rich_text, language) {
            (Ok(rich_text), Ok(language)) => Ok(CodeBlock { rich_text, language }),
            (Err(e), _) => Err(e),
            (_, Err(e)) => Err(e),
        }
    }
}

impl RoundTrip for CodeBlock {
    open spec fn faithful(model: CodeBlockModel) -> bool {
        list_faithful::<RichTextObject>(model.rich_text) && String::faithful(model.language)
    }

    proof fn lemma_round_trip(model: CodeBlockModel) {
        broadcast use lemma_lookup_push;

        reveal_strlit("rich_text");
        assert("rich_text"@.len() == 9);
        reveal_strlit("language");
        assert("language"@.len() == 8);
        lemma_list_round_trip::<RichTextObject>(model.rich_text);
        String::lemma_round_trip(model.language);
    }
}

/// One block of the content of a page.
#[derive(Default, Debug)]
pub enum BlockElement {
    HeadingOne(RichTextValue),
    HeadingTwo(RichTextValue),
    HeadingThree(RichTextValue),
    Paragraph(RichTextValue),
    Code(CodeBlock),
    /// The block that stands for nothing. No JSON value is read as it.
    #[default]
    Null,
}

/// The mathematical value of a [`BlockElement`].
pub enum BlockModel {
    HeadingOne(Seq<RichTextModel>),
    HeadingTwo(Seq<RichTextModel>),
    HeadingThree(Seq<RichTextModel>),
    Paragraph(Seq<RichTextModel>),
    Code(CodeBlockModel),
    Null,
}

impl View for BlockElement {
    type V = BlockModel;

    open spec fn view(&self) -> BlockModel {
        match self {
            BlockElement::HeadingOne(text) => BlockModel::HeadingOne(text@),
            BlockElement::HeadingTwo(text) => BlockModel::HeadingTwo(text@),
            BlockElement::HeadingThree(text) => BlockModel::HeadingThree(text@),
            BlockElement::Paragraph(text) => BlockModel::Paragraph(text@),
            BlockElement::Code(code) => BlockModel::Code(code@),
            BlockElement::Null => BlockModel::Null,
        }
    }
}

/// The object with the one member `key: value`.
pub open spec fn tagged(key: Seq<char>, value: JsonModel) -> JsonModel {
    JsonModel::Object(seq![(key, value)])
}

/// The block that the one member `key: value` stands for.
pub open spec fn block_of(key: Seq<char>, value: JsonModel) -> Option<BlockModel> {
    if key == "heading_1"@ {
        match RichTextValue::decoding(value) {
            Some(text) => Some(BlockModel::HeadingOne(text)),
            None => None,
        }
    } else if key == "heading_2"@ {
        match RichTextValue::decoding(value) {
            Some(text) => Some(BlockModel::HeadingTwo(text)),
            None => None,
        }
    } else if key == "heading_3"@ {
        match RichTextValue::decoding(value) {
            Some(text) => Some(BlockModel::HeadingThree(text)),
            None => None,
        }
    } else if key == "paragraph"@ {
        match RichTextValue::decoding(value) {
            Some(text) => Some(BlockModel::Paragraph(text)),
            None => None,
        }
    } else if key == "code"@ {
        match CodeBlock::decoding(value) {
            Some(code) => Some(BlockModel::Code(code)),
            None => None,
        }
    } else {
        None
    }
}

/// The words with which the one member `key: value` is refused as a block.
pub open spec fn block_refusal(key: Seq<char>, value: JsonModel) -> Seq<char> {
    if key == "heading_1"@ || key == "heading_2"@ || key == "heading_3"@ || key == "paragraph"@ {
        under(key, RichTextValue::refusal(value))
    } else if key == "code"@ {
        under(key, CodeBlock::refusal(value))
    } else {
        under(key, "no kind of block has this name"@)
    }
}

/// The names of the kinds of block: no two are the same.
proof fn lemma_block_keys()
    ensures
        "heading_1"@.len() == 9 && "heading_1"@[0] == 'h' && "heading_1"@[8] == '1',
        "heading_2"@.len() == 9 && "heading_2"@[0] == 'h' && "heading_2"@[8] == '2',
        "heading_3"@.len() == 9 && "heading_3"@[0] == 'h' && "heading_3"@[8] == '3',
        "paragraph"@.len() == 9 && "paragraph"@[0] == 'p',
        "code"@.len() == 4,
{
    reveal_strlit("heading_1");
    reveal_strlit("heading_2");
    reveal_strlit("heading_3");
    reveal_strlit("paragraph");
    reveal_strlit("code");
}

impl JsonCodec for BlockElement {
    /// A block is the object with one member, named after its kind. The block
    /// that stands for nothing is the text `Null`.
    open spec fn encoding(model: BlockModel) -> JsonModel {
        match model {
            BlockModel::HeadingOne(text) => tagged("heading_1"@, RichTextValue::encoding(text)),
            BlockModel::HeadingTwo(text) => tagged("heading_2"@, RichTextValue::encoding(text)),
            BlockModel::HeadingThree(text) => tagged("heading_3"@, RichTextValue::encoding(text)),
            BlockModel::Paragraph(text) => tagged("paragraph"@, RichTextValue::encoding(text)),
            BlockModel::Code(code) => tagged("code"@, CodeBlock::encoding(code)),
            BlockModel::Null => JsonModel::Text("Null"@),
        }
    }

    /// Only an object with exactly one member is read as a block, and only
    /// where the member is named after a kind and holds what that kind holds.
    open spec fn decoding(json: JsonModel) -> Option<BlockModel> {
        match json {
            JsonModel::Object(members) => if members.len() == 1 {
                block_of(members[0].0, members[0].1)
            } else {
                None
            },
            _ => None,
        }
    }

    open spec fn refusal(json: JsonModel) -> Seq<char> {
        match json {
            JsonModel::Object(members) => if members.len() == 1 {
                block_refusal(members[0].0, members[0].1)
            } else {
                "not an object with one member"@
            },
            _ => "not an object"@,
        }
    }

    fn to_json(&self) -> (json: Json) {
        let mut members = no_members();
        match self {
            BlockElement::HeadingOne(text) => {
                push_member(&mut members, "heading_1", text.to_json());
            },
            BlockElement::HeadingTwo(text) => {
                push_member(&mut members, "heading_2", text.to_json());
            },
            BlockElement::HeadingThree(text) => {
                push_member(&mut members, "heading_3", text.to_json());
            },
            BlockElement::Paragraph(text) => {
                push_member(&mut members, "paragraph", text.to_json());
            },
            BlockElement::Code(code) => {
                push_member(&mut members, "code", code.to_json());
            },
            BlockElement::Null => {
                return Json::text("Null");
            },
        }
        Json::object(members)
    }

    fn from_json(json: &Json) -> (value: Result<Self, DecodeError>) {
        let members = match json.as_object() {
            Some(members) => members,
            None => {
                return Err(DecodeError::new("not an object"));
            },
        };
        if members.len() != 1 {
            return Err(DecodeError::new("not an object with one member"));
        }
        let key = members[0].0.as_str();
        let value = &members[0].1;
        assert(members_view(members@)[0] == (key@, value@));
        if same_key(key, "heading_1") {
            match RichTextValue::from_json(value) {
                Ok(text) => Ok(BlockElement::HeadingOne(text)),
                Err(e) => Err(e.under(key)),
            }
        } else if same_key(key, "heading_2") {
            match RichTextValue::from_json(value) {
                Ok(text) => Ok(BlockElement::HeadingTwo(text)),
                Err(e) => Err(e.under(key)),
            }
        } else if same_key(key, "heading_3") {
            match RichTextValue::from_json(value) {
                Ok(text) => Ok(BlockElement::HeadingThree(text)),
                Err(e) => Err(e.under(key)),
            }
        } else if same_key(key, "paragraph") {
            match RichTextValue::from_json(value) {
                Ok(text) => Ok(BlockElement::Paragraph(text)),
                Err(e) => Err(e.under(key)),
            }
        } else if same_key(key, "code") {
            match CodeBlock::from_json(value) {
                Ok(code) => Ok(BlockElement::Code(code)),
                Err(e) => Err(e.under(key)),
            }
        } else {
            Err(DecodeError::new("no kind of block has this name").under(key))
        }
    }
}

impl RoundTrip for BlockElement {
    /// Every block but the one that stands for nothing.
    open spec fn faithful(model: BlockModel) -> bool {
        !(model is Null)
    }

    proof fn lemma_round_trip(model: BlockModel) {
        lemma_block_keys();
        match model {
            BlockModel::HeadingOne(text) => {
                RichTextValue::lemma_round_trip(text);
            },
            BlockModel::HeadingTwo(text) => {
                RichTextValue::lemma_round_trip(text);
            },
            BlockModel::HeadingThree(text) => {
                RichTextValue::lemma_round_trip(text);
            },
            BlockModel::Paragraph(text) => {
                RichTextValue::lemma_round_trip(text);
            },
            BlockModel::Code(code) => {
                CodeBlock::lemma_round_trip(code);
            },
            BlockModel::Null => {},
        }
    }
}

/// The one plain run `content`.
pub open spec fn plain_text(content: Seq<char>) -> Seq<RichTextModel> {
    seq![RichTextModel { content, annotations: None }]
}

/// The language of a code block for which none is given.
pub open spec fn language_or_plain(language: Option<String>) -> Seq<char> {
    match language {
        Some(name) => name@,
        None => "plain text"@,
    }
}

/// The list that holds the one plain run `content`.
fn single_run(content: RichTextObject) -> (runs: Vec<RichTextObject>)
    ensures
        models(runs@) == seq![content@],
{
    let mut runs: Vec<RichTextObject> = Vec::new();
    runs.push(content);
    assert(models(runs@) =~= seq![content@]);
    runs
}

impl BlockElement {
    /// A first-level heading that reads `content`.
    pub fn heading_one(content: &str) -> (block: Self)
        ensures
            block@ == BlockModel::HeadingOne(plain_text(content@)),
    {
        BlockElement::HeadingOne(
            RichTextValue { rich_text: single_run(RichTextObject::new(content)) },
        )
    }

    /// A second-level heading that reads `content`.
    pub fn heading_two(content: &str) -> (block: Self)
        ensures
            block@ == BlockModel::HeadingTwo(plain_text(content@)),
    {
        BlockElement::HeadingTwo(
            RichTextValue { rich_text: single_run(RichTextObject::new(content)) },
        )
    }

    /// A third-level heading that reads `content`.
    pub fn heading_three(content: &str) -> (block: Self)
        ensures
            block@ == BlockModel::HeadingThree(plain_text(content@)),
    {
        BlockElement::HeadingThree(
            RichTextValue { rich_text: single_run(RichTextObject::new(content)) },
        )
    }

    /// A paragraph that reads `content`.
    pub fn paragraph(content: &str) -> (block: Self)
        ensures
            block@ == BlockModel::Paragraph(plain_text(content@)),
    {
        BlockElement::Paragraph(
            RichTextValue { rich_text: single_run(RichTextObject::new(content)) },
        )
    }

    /// A code block that holds `content`, in `language`, or in plain text
    /// where no language is given.
    pub fn code(content: &str, language: Option<String>) -> (block: Self)
        ensures
            block@ == BlockModel::Code(
                CodeBlockModel {
                    rich_text: plain_text(content@),
                    language: language_or_plain(language),
                },
            ),
    {
        let language = match language {
            Some(name) => name,
            None => "plain text".to_owned(),
        };
        BlockElement::Code(
            CodeBlock { rich_text: single_run(RichTextObject::new(content)), language },
        )
    }

    /// A code block that holds `content`, which it takes over, in `language`,
    /// or in plain text where no language is given.
    pub fn code_owned(content: String, language: Option<String>) -> (block: Self)
        ensures
            block@ == BlockModel::Code(
                CodeBlockModel {
                    rich_text: plain_text(content@),
                    language: language_or_plain(language),
                },
            ),
    {
        let language = match language {
            Some(name) => name,
            None => "plain text".to_owned(),
        };
        BlockElement::Code(
            CodeBlock { rich_text: single_run(RichTextObject::new_owned(content)), language },
        )
    }
}

} // verus!
