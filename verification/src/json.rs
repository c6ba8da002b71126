//! JSON documents as plain values, and the one frame shape this app reads out
//! of an OpenAI-compatible stream.
//!
//! Parsing is serde_json's; what a document says is read here. Only the fields
//! that change what the app does are read, and everything else is ignored,
//! which is what lets a provider add to the shape without breaking a stream.
use vstd::prelude::*;
use crate::text::same_text;

verus! {

/// A JSON value. Numbers keep their text: nothing here computes with one.
/// Object members come in the order the parser hands them over, one per key.
#[derive(Debug, PartialEq)]
pub enum Json {
    Null,
    Bool(bool),
    Number(String),
    Str(String),
    Array(Vec<Json>),
    Object(Vec<(String, Json)>),
}

#[verifier::ext_equal]
/// A JSON value as a mathematical value: strings as their characters.
pub enum JsonModel {
    Null,
    Bool(bool),
    Number(Seq<char>),
    Str(Seq<char>),
    Array(Seq<JsonModel>),
    Object(Seq<(Seq<char>, JsonModel)>),
}

/// The model of a [`Json`] value.
pub open spec fn json_model(j: Json) -> JsonModel
    decreases j,
{
    match j {
        Json::Null => JsonModel::Null,
        Json::Bool(b) => JsonModel::Bool(b),
        Json::Number(n) => JsonModel::Number(n@),
        Json::Str(s) => JsonModel::Str(s@),
        Json::Array(items) => JsonModel::Array(Seq::new(items@.len(), |i: int| if 0 <= i < items@.len() { json_model(items@[i]) } else { JsonModel::Null })),
        Json::Object(members) => JsonModel::Object(Seq::new(members@.len(), |i: int| if 0 <= i < members@.len() { (members@[i].0@, json_model(members@[i].1)) } else { (Seq::empty(), JsonModel::Null) })),
    }
}

/// A copy of a JSON value.
pub fn copy_json(j: &Json) -> (r: Json)
    ensures json_model(r) == json_model(*j),
    decreases j,
{
    match j {
        Json::Null => Json::Null,
        Json::Bool(b) => Json::Bool(*b),
        Json::Number(n) => Json::Number(n.clone()),
        Json::Str(s) => Json::Str(s.clone()),
        Json::Array(items) => {
            let mut out: Vec<Json> = Vec::new();
            let mut i: usize = 0;
            while i < items.len()
                invariant
                    *j == Json::Array(*items),
                    i <= items@.len(),
                    out@.len() == i,
                    forall|k: int| 0 <= k < i ==> json_model(#[trigger] out@[k]) == json_model(items@[k]),
                decreases items@.len() - i,
            {
                proof {
                    assert(decreases_to!(*j => (*j)->Array_0));
                    assert(decreases_to!(*items => items@));
                    assert(decreases_to!(items@ => items@[i as int]));
                }
                let x = copy_json(&items[i]);
                out.push(x);
                i += 1;
            }
            let ghost a = Seq::new(out@.len(), |k: int| if 0 <= k < out@.len() { json_model(out@[k]) } else { JsonModel::Null });
            let ghost b = Seq::new(items@.len(), |k: int| if 0 <= k < items@.len() { json_model(items@[k]) } else { JsonModel::Null });
            assert(a =~= b);
            let r = Json::Array(out);
            assert(json_model(r)->Array_0 =~= json_model(*j)->Array_0);
            r
        },
        Json::Object(members) => {
            let mut out: Vec<(String, Json)> = Vec::new();
            let mut i: usize = 0;
            while i < members.len()
                invariant
                    *j == Json::Object(*members),
                    i <= members@.len(),
                    out@.len() == i,
                    forall|k: int| 0 <= k < i ==> (#[trigger] out@[k]).0@ == members@[k].0@ && json_model(out@[k].1) == json_model(members@[k].1),
                decreases members@.len() - i,
            {
                proof {
                    assert(decreases_to!(*j => (*j)->Object_0));
                    assert(decreases_to!(*members => members@));
                    assert(decreases_to!(members@ => members@[i as int]));
                    assert(decreases_to!(members@[i as int] => members@[i as int].1));
                }
                let x = copy_json(&members[i].1);
                out.push((members[i].0.clone(), x));
                i += 1;
            }
            let ghost a = Seq::new(out@.len(), |k: int| if 0 <= k < out@.len() { (out@[k].0@, json_model(out@[k].1)) } else { (Seq::empty(), JsonModel::Null) });
            let ghost b = Seq::new(members@.len(), |k: int| if 0 <= k < members@.len() { (members@[k].0@, json_model(members@[k].1)) } else { (Seq::empty(), JsonModel::Null) });
            assert(a =~= b);
            let r = Json::Object(out);
            assert(json_model(r)->Object_0 =~= json_model(*j)->Object_0);
            r
        },
    }
}

/// The document `text` holds, or `None` when it is not valid JSON (serde_json's
/// grammar: one value, optionally surrounded by JSON white space).
pub uninterp spec fn json_document(text: Seq<char>) -> Option<Json>;

#[verifier::external_type_specification]
#[verifier::external_body]
pub struct ExJsonValue(serde_json::Value);

/// Calls `serde_json::from_str::<serde_json::Value>` and hands the value over
/// as a [`Json`]. The contract claims only that the result is a function of
/// the text (named [`json_document`]); what that function is, is serde_json's.
#[verifier::external_body]
pub(crate) fn parse_json(text: &str) -> (r: Option<Json>)
    ensures
        r == json_document(text@),
{
    serde_json::from_str::<serde_json::Value>(text).ok().map(json_from_value)
}

/// Converts a `serde_json::Value`, variant for variant, into a [`Json`]: the
/// recursive half of [`parse_json`], which Verus does not read either.
#[verifier::external_body]
fn json_from_value(value: serde_json::Value) -> Json {
    match value {
        serde_json::Value::Null => Json::Null,
        serde_json::Value::Bool(b) => Json::Bool(b),
        serde_json::Value::Number(n) => Json::Number(n.to_string()),
        serde_json::Value::String(s) => Json::Str(s),
        serde_json::Value::Array(items) => Json::Array(items.into_iter().map(json_from_value).collect()),
        serde_json::Value::Object(map) => Json::Object(
            map.into_iter().map(|(k, v)| (k, json_from_value(v))).collect(),
        ),
    }
}

/// The value under `key` in an object's members: the first member so named.
pub open spec fn field(members: Seq<(String, Json)>, key: Seq<char>) -> Option<Json>
    decreases members.len(),
{
    if members.len() == 0 {
        None
    } else if members[0].0@ == key {
        Some(members[0].1)
    } else {
        field(members.drop_first(), key)
    }
}

/// The member of `members` named `key`.
pub fn field_of<'a>(members: &'a Vec<(String, Json)>, key: &str) -> (r: Option<&'a Json>)
    ensures
        match r {
            Some(v) => field(members@, key@) == Some(*v),
            None => field(members@, key@) is None,
        },
{
    let mut i: usize = 0;
    assert(members@.skip(0) =~= members@);
    while i < members.len()
        invariant
            i <= members@.len(),
            field(members@, key@) == field(members@.skip(i as int), key@),
        decreases members@.len() - i,
    {
        assert(members@.skip(i as int).drop_first() =~= members@.skip(i + 1));
        if same_text(members[i].0.as_str(), key) {
            return Some(&members[i].1);
        }
        i += 1;
    }
    None
}

/// An optional string member, as serde reads an `Option<String>`: absent or
/// `null` is `None`, a string is `Some`, and anything else does not fit
/// (the outer `None`).
pub open spec fn optional_text(v: Option<Json>) -> Option<Option<Seq<char>>> {
    match v {
        None => Some(None),
        Some(Json::Null) => Some(None),
        Some(Json::Str(s)) => Some(Some(s@)),
        Some(_) => None,
    }
}

pub open spec fn text_model(o: Option<String>) -> Option<Seq<char>> {
    match o {
        Some(s) => Some(s@),
        None => None,
    }
}

pub fn optional_text_of(v: Option<&Json>) -> (r: Option<Option<String>>)
    ensures
        optional_text(match v { Some(x) => Some(*x), None => None }) == match r {
            Some(o) => Some(text_model(o)),
            None => None,
        },
{
    match v {
        None => Some(None),
        Some(Json::Null) => Some(None),
        Some(Json::Str(s)) => Some(Some(s.clone())),
        Some(_) => None,
    }
}

/// One entry of a frame's `choices`.
pub struct Choice {
    /// The answer text this frame carries, if any.
    pub content: Option<String>,
    /// Whether the frame carried reasoning rather than (or beside) the answer.
    pub reasoning: bool,
    /// Why the model stopped, once it says so.
    pub finish_reason: Option<String>,
}

pub struct ChoiceModel {
    pub content: Option<Seq<char>>,
    pub reasoning: bool,
    pub finish_reason: Option<Seq<char>>,
}

impl Choice {
    pub open spec fn model(&self) -> ChoiceModel {
        ChoiceModel {
            content: text_model(self.content),
            reasoning: self.reasoning,
            finish_reason: text_model(self.finish_reason),
        }
    }
}

/// A stream frame: the choices it carries, and the message of a reported error.
pub struct Frame {
    pub choices: Vec<Choice>,
    pub error: Option<String>,
}

pub struct FrameModel {
    pub choices: Seq<ChoiceModel>,
    pub error: Option<Seq<char>>,
}

impl Frame {
    pub open spec fn model(&self) -> FrameModel {
        FrameModel {
            choices: self.choices@.map_values(|c: Choice| c.model()),
            error: text_model(self.error),
        }
    }
}

/// `delta`: absent reads as an empty delta; otherwise an object whose
/// `content` and `reasoning_content` are optional strings.
pub open spec fn delta_of(v: Option<Json>) -> Option<(Option<Seq<char>>, bool)> {
    match v {
        None => Some((None, false)),
        Some(Json::Object(members)) => {
            match (
                optional_text(field(members@, "content"@)),
                optional_text(field(members@, "reasoning_content"@)),
            ) {
                (Some(content), Some(reasoning)) => Some((content, reasoning is Some)),
                _ => None,
            }
        },
        Some(_) => None,
    }
}

/// A choice: an object with an optional `delta` and an optional string
/// `finish_reason`.
pub open spec fn choice_of(j: Json) -> Option<ChoiceModel> {
    match j {
        Json::Object(members) => {
            match (delta_of(field(members@, "delta"@)), optional_text(field(members@, "finish_reason"@))) {
                (Some(delta), Some(finish_reason)) => Some(
                    ChoiceModel { content: delta.0, reasoning: delta.1, finish_reason },
                ),
                _ => None,
            }
        },
        _ => None,
    }
}

/// Every item read as a choice, or `None` if one does not fit.
pub open spec fn choice_list(items: Seq<Json>) -> Option<Seq<ChoiceModel>>
    decreases items.len(),
{
    if items.len() == 0 {
        Some(Seq::empty())
    } else {
        match (choice_list(items.drop_last()), choice_of(items.last())) {
            (Some(cs), Some(c)) => Some(cs.push(c)),
            _ => None,
        }
    }
}

/// `choices`: absent reads as none; otherwise an array of choices.
pub open spec fn choices_of(v: Option<Json>) -> Option<Seq<ChoiceModel>> {
    match v {
        None => Some(Seq::empty()),
        Some(Json::Array(items)) => choice_list(items@),
        Some(_) => None,
    }
}

/// `error`: absent or `null` is no error; otherwise an object with a string
/// `message`.
pub open spec fn error_of(v: Option<Json>) -> Option<Option<Seq<char>>> {
    match v {
        None => Some(None),
        Some(Json::Null) => Some(None),
        Some(Json::Object(members)) => match field(members@, "message"@) {
            Some(Json::Str(m)) => Some(Some(m@)),
            _ => None,
        },
        Some(_) => None,
    }
}

/// A document as a stream frame, or `None` when it does not have the frame's
/// shape: an object whose `choices` and `error` (each optional) fit.
pub open spec fn frame_of(j: Json) -> Option<FrameModel> {
    match j {
        Json::Object(members) => {
            match (choices_of(field(members@, "choices"@)), error_of(field(members@, "error"@))) {
                (Some(choices), Some(error)) => Some(FrameModel { choices, error }),
                _ => None,
            }
        },
        _ => None,
    }
}

fn choice_from_json(j: &Json) -> (r: Option<Choice>)
    ensures
        match r {
            Some(c) => choice_of(*j) == Some(c.model()),
            None => choice_of(*j) is None,
        },
{
    match j {
        Json::Object(members) => {
            let delta = field_of(members, "delta");
            let finish = optional_text_of(field_of(members, "finish_reason"));
            let parts: Option<(Option<String>, bool)> = match delta {
                None => Some((None, false)),
                Some(Json::Object(d)) => {
                    let content = optional_text_of(field_of(d, "content"));
                    let reasoning = optional_text_of(field_of(d, "reasoning_content"));
                    match (content, reasoning) {
                        (Some(c), Some(r)) => Some((c, r.is_some())),
                        _ => None,
                    }
                },
                Some(_) => None,
            };
            match (parts, finish) {
                (Some((content, reasoning)), Some(finish_reason)) => Some(
                    Choice { content, reasoning, finish_reason },
                ),
                _ => None,
            }
        },
        _ => None,
    }
}

/// A parsed document read as a stream frame.
pub fn frame_from_json(doc: &Json) -> (r: Option<Frame>)
    ensures
        match r {
            Some(f) => frame_of(*doc) == Some(f.model()),
            None => frame_of(*doc) is None,
        },
{
    match doc {
        Json::Object(members) => {
            let choices: Option<Vec<Choice>> = match field_of(members, "choices") {
                None => Some(Vec::new()),
                Some(Json::Array(items)) => {
                    let mut out: Vec<Choice> = Vec::new();
                    let mut i: usize = 0;
                    while i < items.len()
                        invariant
                            i <= items@.len(),
                            *doc == Json::Object(*members),
                            field(members@, "choices"@) == Some(Json::Array(*items)),
                            choice_list(items@.take(i as int)) == Some(
                                out@.map_values(|c: Choice| c.model()),
                            ),
                        decreases items@.len() - i,
                    {
                        assert(items@.take(i + 1).drop_last() =~= items@.take(i as int));
                        assert(items@.take(i + 1).last() == items@[i as int]);
                        match choice_from_json(&items[i]) {
                            Some(c) => {
                                let ghost before = out@;
                                out.push(c);
                                assert(out@.map_values(|c: Choice| c.model()) =~= before.map_values(
                                    |c: Choice| c.model(),
                                ).push(c.model()));
                            },
                            None => {
                                proof {
                                    lemma_choice_list_prefix_fails(items@, i as int);
                                }
                                return None;
                            },
                        }
                        i += 1;
                    }
                    assert(items@.take(items@.len() as int) =~= items@);
                    Some(out)
                },
                Some(_) => None,
            };
            assert(match choices {
                Some(v) => choices_of(field(members@, "choices"@)) == Some(
                    v@.map_values(|c: Choice| c.model()),
                ),
                None => choices_of(field(members@, "choices"@)) is None,
            }) by {
                if field(members@, "choices"@) is None {
                    assert(Seq::<Choice>::empty().map_values(|c: Choice| c.model()) =~= Seq::<
                        ChoiceModel,
                    >::empty());
                }
            }
            let error: Option<Option<String>> = match field_of(members, "error") {
                None => Some(None),
                Some(Json::Null) => Some(None),
                Some(Json::Object(e)) => match field_of(e, "message") {
                    Some(Json::Str(m)) => Some(Some(m.clone())),
                    _ => None,
                },
                Some(_) => None,
            };
            assert(error_of(field(members@, "error"@)) == match error {
                Some(o) => Some(text_model(o)),
                None => None,
            });
            match (choices, error) {
                (Some(choices), Some(error)) => Some(Frame { choices, error }),
                _ => None,
            }
        },
        _ => None,
    }
}

/// Once an item does not fit, no longer list of items fits either.
proof fn lemma_choice_list_prefix_fails(items: Seq<Json>, i: int)
    requires
        0 <= i < items.len(),
        choice_of(items[i]) is None,
    ensures
        choice_list(items) is None,
    decreases items.len(),
{
    if i < items.len() - 1 {
        assert(items.drop_last()[i] == items[i]);
        lemma_choice_list_prefix_fails(items.drop_last(), i);
    }
}

} // verus!
