//! What a transport decides around its network calls: the body of an
//! OpenAI-compatible request, how a refused request and an empty answer are
//! reported, and how a Bedrock stream is read.
use vstd::prelude::*;
use crate::decimal::{decimal, push_decimal};
use crate::json::{copy_json, field, json_document, json_model, parse_json, Json, JsonModel};
use crate::provider::{opt_text, Endpoint};
use crate::sse::Decoder;
use crate::text::{
    chars_of, first_index_of, lemma_first_index_of, lemma_first_index_of_extend,
    lemma_first_index_of_facts, lemma_no_index_of, push_str, same_text, string_of, trim, trim_range,
};

verus! {

pub open spec fn keys(members: Seq<(Seq<char>, JsonModel)>) -> Seq<Seq<char>> {
    members.map_values(|m: (Seq<char>, JsonModel)| m.0)
}

/// `members` with `key` set to `value`: in place of the first member so named
/// when there is one, appended otherwise — what inserting into a JSON object
/// does.
pub open spec fn insert_member(members: Seq<(Seq<char>, JsonModel)>, key: Seq<char>, value: JsonModel) -> Seq<
    (Seq<char>, JsonModel),
> {
    match first_index_of(keys(members), key) {
        Some(i) => members.update(i, (key, value)),
        None => members.push((key, value)),
    }
}

/// `base` with every member of `extra` inserted, in order.
pub open spec fn merge_members(base: Seq<(Seq<char>, JsonModel)>, extra: Seq<(Seq<char>, JsonModel)>) -> Seq<
    (Seq<char>, JsonModel),
>
    decreases extra.len(),
{
    if extra.len() == 0 {
        base
    } else {
        let merged = merge_members(base, extra.drop_last());
        insert_member(merged, extra.last().0, extra.last().1)
    }
}

pub open spec fn message_model(role: Seq<char>, content: Seq<char>) -> JsonModel {
    JsonModel::Object(seq![("role"@, JsonModel::Str(role)), ("content"@, JsonModel::Str(content))])
}

/// The members every chat-completion body has: the model, streaming on, the
/// budget under the endpoint's own field name, and the system and user
/// messages.
pub open spec fn common_members(
    model: Seq<char>,
    max_tokens_field: Seq<char>,
    max_tokens: u32,
    system_prompt: Seq<char>,
    text: Seq<char>,
) -> Seq<(Seq<char>, JsonModel)> {
    insert_member(
        insert_member(
            insert_member(seq![("model"@, JsonModel::Str(model))], "stream"@, JsonModel::Bool(true)),
            max_tokens_field,
            JsonModel::Number(decimal(max_tokens as nat)),
        ),
        "messages"@,
        JsonModel::Array(
            seq![message_model("system"@, system_prompt), message_model("user"@, text)],
        ),
    )
}

/// The body of one streamed chat completion: the common members, and then the
/// endpoint's extra members merged over them, so a provider can also override
/// a common field.
pub open spec fn request_body_of(
    model: Seq<char>,
    max_tokens_field: Seq<char>,
    max_tokens: u32,
    system_prompt: Seq<char>,
    text: Seq<char>,
    extra: JsonModel,
) -> JsonModel {
    let base = common_members(model, max_tokens_field, max_tokens, system_prompt, text);
    match extra {
        JsonModel::Object(members) => JsonModel::Object(merge_members(base, members)),
        _ => JsonModel::Object(base),
    }
}

/// The value `members` gives `key`: that of the first member so named.
pub open spec fn member_value(members: Seq<(Seq<char>, JsonModel)>, key: Seq<char>) -> Option<JsonModel> {
    match first_index_of(keys(members), key) {
        Some(i) => Some(members[i].1),
        None => None,
    }
}

/// Setting `key` gives it `value` and leaves every other key as it was.
proof fn lemma_insert_member(
    members: Seq<(Seq<char>, JsonModel)>,
    key: Seq<char>,
    value: JsonModel,
    other: Seq<char>,
)
    ensures
        member_value(insert_member(members, key, value), key) == Some(value),
        other != key ==> member_value(insert_member(members, key, value), other) == member_value(
            members,
            other,
        ),
{
    let ks = keys(members);
    let m2 = insert_member(members, key, value);
    lemma_first_index_of_facts(ks, key);
    lemma_first_index_of_facts(ks, other);
    match first_index_of(ks, key) {
        Some(i) => {
            assert(keys(m2) =~= ks);
        },
        None => {
            assert(keys(m2) =~= ks + seq![key]);
            lemma_first_index_of(keys(m2), key, ks.len() as int);
            if other != key {
                if first_index_of(ks, other) is Some {
                    lemma_first_index_of_extend(ks, seq![key], other);
                } else {
                    lemma_no_index_of(keys(m2), other);
                }
            }
        },
    }
}

proof fn lemma_merge_members(base: Seq<(Seq<char>, JsonModel)>, extra: Seq<(Seq<char>, JsonModel)>)
    ensures
        forall|i: int|
            0 <= i < extra.len() && (forall|j: int| i < j < extra.len() ==> extra[j].0 != extra[i].0)
                ==> member_value(merge_members(base, extra), #[trigger] extra[i].0) == Some(extra[i].1),
        forall|k: Seq<char>|
            !keys(extra).contains(k) ==> #[trigger] member_value(merge_members(base, extra), k)
                == member_value(base, k),
    decreases extra.len(),
{
    if extra.len() > 0 {
        let rest = extra.drop_last();
        let last = extra.last();
        let merged = merge_members(base, rest);
        lemma_merge_members(base, rest);
        assert forall|i: int|
            0 <= i < extra.len() && (forall|j: int| i < j < extra.len() ==> extra[j].0 != extra[i].0)
                implies member_value(merge_members(base, extra), #[trigger] extra[i].0) == Some(
            extra[i].1,
        ) by {
            lemma_insert_member(merged, last.0, last.1, extra[i].0);
            if i < extra.len() - 1 {
                assert(extra[extra.len() - 1].0 != extra[i].0);
                assert(rest[i] == extra[i]);
                assert forall|j: int| i < j < rest.len() implies rest[j].0 != rest[i].0 by {
                    assert(rest[j] == extra[j]);
                }
            }
        }
        assert forall|k: Seq<char>| !keys(extra).contains(k) implies #[trigger] member_value(
            merge_members(base, extra),
            k,
        ) == member_value(base, k) by {
            assert(keys(extra)[extra.len() - 1] == last.0);
            assert(!keys(rest).contains(k)) by {
                if keys(rest).contains(k) {
                    let j = choose|j: int| 0 <= j < keys(rest).len() && keys(rest)[j] == k;
                    assert(keys(extra)[j] == k);
                }
            }
            lemma_insert_member(merged, last.0, last.1, k);
        }
    }
}

/// A provider's extra members are merged over the common ones: each member of
/// `extra` that `extra` does not name again later holds its own value in the
/// body, and every key `extra` does not name keeps the value the common members
/// give it.
pub proof fn extra_members_are_merged_over_the_common_ones(
    model: Seq<char>,
    max_tokens_field: Seq<char>,
    max_tokens: u32,
    system_prompt: Seq<char>,
    text: Seq<char>,
    extra: Seq<(Seq<char>, JsonModel)>,
)
    ensures
        ({
            let body = request_body_of(
                model,
                max_tokens_field,
                max_tokens,
                system_prompt,
                text,
                JsonModel::Object(extra),
            )->Object_0;
            let common = common_members(model, max_tokens_field, max_tokens, system_prompt, text);
            &&& forall|i: int|
                0 <= i < extra.len() && (forall|j: int| i < j < extra.len() ==> extra[j].0 != extra[i].0)
                    ==> member_value(body, #[trigger] extra[i].0) == Some(extra[i].1)
            &&& forall|k: Seq<char>|
                !keys(extra).contains(k) ==> #[trigger] member_value(body, k) == member_value(common, k)
        }),
{
    lemma_merge_members(common_members(model, max_tokens_field, max_tokens, system_prompt, text), extra);
}

pub open spec fn members_model(v: Seq<(String, Json)>) -> Seq<(Seq<char>, JsonModel)> {
    v.map_values(|m: (String, Json)| (m.0@, json_model(m.1)))
}

/// Sets `key` in an object's members.
fn insert(members: &mut Vec<(String, Json)>, key: String, value: Json)
    ensures
        members_model(final(members)@) == insert_member(members_model(old(members)@), key@, json_model(value)),
{
    let ghost before = members_model(members@);
    let mut i: usize = 0;
    while i < members.len()
        invariant
            i <= members@.len(),
            before == members_model(members@),
            members@ == old(members)@,
            forall|j: int| 0 <= j < i ==> #[trigger] keys(before)[j] != key@,
        decreases members@.len() - i,
    {
        if same_text(members[i].0.as_str(), key.as_str()) {
            proof {
                lemma_first_index_of(keys(before), key@, i as int);
            }
            members.set(i, (key, value));
            assert(members_model(members@) =~= before.update(i as int, (key@, json_model(value))));
            return;
        }
        i += 1;
    }
    proof {
        lemma_no_index_of(keys(before), key@);
    }
    let ghost kv = (key@, json_model(value));
    members.push((key, value));
    assert(members_model(members@) =~= before.push(kv));
}

fn message(role: &str, content: &str) -> (r: Json)
    ensures
        json_model(r) == message_model(role@, content@),
{
    let mut members: Vec<(String, Json)> = Vec::new();
    members.push(("role".to_owned(), Json::Str(role.to_owned())));
    members.push(("content".to_owned(), Json::Str(content.to_owned())));
    let r = Json::Object(members);
    proof {
        reveal_with_fuel(json_model, 2);
    }
    assert(json_model(r)->Object_0 =~= message_model(role@, content@)->Object_0);
    r
}

/// The body of one streamed chat completion to `endpoint`.
pub fn request_body(endpoint: &Endpoint, system_prompt: &str, text: &str, max_tokens: u32) -> (r: Json)
    ensures
        json_model(r) == request_body_of(
            endpoint.model@,
            endpoint.max_tokens_field@,
            max_tokens,
            system_prompt@,
            text@,
            json_model(endpoint.extra),
        ),
{
    let mut members: Vec<(String, Json)> = vec![("model".to_owned(), Json::Str(endpoint.model.clone()))];
    assert(members_model(members@) =~= seq![("model"@, JsonModel::Str(endpoint.model@))]);
    insert(&mut members, "stream".to_owned(), Json::Bool(true));
    let mut budget: Vec<char> = Vec::new();
    push_decimal(&mut budget, max_tokens as u64);
    insert(&mut members, endpoint.max_tokens_field.to_owned(), Json::Number(string_of(&budget)));
    let messages = Json::Array(vec![message("system", system_prompt), message("user", text)]);
    assert(json_model(messages)->Array_0 =~= seq![message_model("system"@, system_prompt@), message_model("user"@, text@)]);
    insert(&mut members, "messages".to_owned(), messages);
    let ghost base = members_model(members@);
    match &endpoint.extra {
        Json::Object(extra) => {
            let mut i: usize = 0;
            while i < extra.len()
                invariant
                    endpoint.extra == Json::Object(*extra),
                    i <= extra@.len(),
                    members_model(members@) == merge_members(base, members_model(extra@.take(i as int))),
                decreases extra@.len() - i,
            {
                assert(members_model(extra@.take(i + 1)).drop_last() =~= members_model(extra@.take(i as int)));
                let value = copy_json(&extra[i].1);
                insert(&mut members, extra[i].0.clone(), value);
                i += 1;
            }
            assert(extra@.take(extra@.len() as int) =~= extra@);
            assert(json_model(endpoint.extra)->Object_0 =~= members_model(extra@));
        },
        _ => {},
    }
    let r = Json::Object(members);
    assert(json_model(r)->Object_0 =~= members_model(members@));
    r
}

/// The provider's own message in a refused request's parsed body
/// (`{"error": {"message": ...}}`), if there is one.
pub open spec fn error_message_in(doc: Option<Json>) -> Option<Seq<char>> {
    match doc {
        Some(Json::Object(members)) => match field(members@, "error"@) {
            Some(Json::Object(error)) => match field(error@, "message"@) {
                Some(Json::Str(message)) => Some(message@),
                _ => None,
            },
            _ => None,
        },
        _ => None,
    }
}

/// How a refused request is reported, given its body parsed (`None` when it is
/// not JSON): the provider's own message — "Invalid Authentication" is what
/// tells a user their key belongs to the other host — or else the status and
/// the trimmed body.
pub open spec fn refusal_of(status: Seq<char>, body: Seq<char>, doc: Option<Json>) -> Seq<char> {
    match error_message_in(doc) {
        Some(message) => message,
        None => "HTTP "@ + status + ": "@ + trim(body),
    }
}

/// How a refused request is reported, from its status and body.
pub open spec fn failure_message_of(status: Seq<char>, body: Seq<char>) -> Seq<char> {
    refusal_of(status, body, json_document(body))
}

/// `status` is the status as the HTTP client writes it (`401 Unauthorized`);
/// `doc` is `body` parsed.
pub fn refusal_message(status: &str, body: &str, doc: &Option<Json>) -> (r: String)
    ensures
        r@ == refusal_of(status@, body@, *doc),
{
    if let Some(Json::Object(members)) = doc {
        if let Some(Json::Object(error)) = crate::json::field_of(members, "error") {
            if let Some(Json::Str(message)) = crate::json::field_of(error, "message") {
                return message.clone();
            }
        }
    }
    let b = chars_of(body);
    assert(b@.subrange(0, b@.len() as int) =~= b@);
    let mut out: Vec<char> = Vec::new();
    push_str(&mut out, "HTTP ");
    push_str(&mut out, status);
    push_str(&mut out, ": ");
    let trimmed = trim_range(&b, 0, b.len());
    let mut t = trimmed;
    out.append(&mut t);
    string_of(&out)
}

/// How a refused request is reported: its body is parsed as JSON first.
pub fn failure_message(status: &str, body: &str) -> (r: String)
    ensures
        r@ == failure_message_of(status@, body@),
{
    refusal_message(status, body, &parse_json(body))
}

/// The error for a stream that produced no answer text: a budget spent on
/// reasoning says so; otherwise the finish reason is named.
pub open spec fn empty_answer_error(saw_reasoning: bool, finish_reason: Option<Seq<char>>) -> Seq<char> {
    if saw_reasoning {
        "the model spent its whole budget reasoning and returned no translation — reasoning must be switched off for this model"@
    } else {
        "model returned no text (finish reason: "@ + match finish_reason {
            Some(r) => r,
            None => "unknown"@,
        } + ")"@
    }
}

/// How a finished stream ends: everything said and why it stopped, or, when
/// nothing but white space was said, the error that explains the empty answer.
pub fn stream_outcome(collected: String, decoder: &Decoder) -> (r: Result<(String, Option<String>), String>)
    ensures
        trim(collected@).len() == 0 ==> (r matches Err(e) && e@ == empty_answer_error(
            decoder@.facts.saw_reasoning,
            decoder@.facts.finish_reason,
        )),
        trim(collected@).len() > 0 ==> (r matches Ok((text, reason)) && text@ == collected@ && opt_text(reason)
            == decoder@.facts.finish_reason),
{
    let c = chars_of(collected.as_str());
    assert(c@.subrange(0, c@.len() as int) =~= c@);
    let reason: Option<String> = match decoder.finish_reason() {
        Some(r) => Some(r.to_owned()),
        None => None,
    };
    if trim_range(&c, 0, c.len()).len() == 0 {
        if decoder.saw_reasoning() {
            return Err("the model spent its whole budget reasoning and returned no translation — reasoning must be switched off for this model".to_owned());
        }
        let mut out: Vec<char> = Vec::new();
        push_str(&mut out, "model returned no text (finish reason: ");
        match &reason {
            Some(r) => push_str(&mut out, r.as_str()),
            None => push_str(&mut out, "unknown"),
        }
        push_str(&mut out, ")");
        return Err(string_of(&out));
    }
    Ok((collected, reason))
}

/// The `effort` Bedrock is asked for: `low` unless configured; configured
/// empty drops the parameter, for models that reject it.
pub fn effort(configured: Option<String>) -> (r: Option<String>)
    ensures
        match configured {
            None => r matches Some(e) && e@ == "low"@,
            Some(v) => if v@.len() == 0 {
                r is None
            } else {
                r matches Some(e) && e@ == v@
            },
        },
{
    match configured {
        None => Some("low".to_owned()),
        Some(v) => if v.as_str().is_empty() {
            None
        } else {
            Some(v)
        },
    }
}

/// An event off a Bedrock stream, as far as reading it is concerned.
pub enum BedrockEvent {
    /// A content delta: its text, or `None` for a delta that carries no answer
    /// text (reasoning, which adaptive thinking emits alongside the answer).
    Delta(Option<String>),
    /// The message stopped, for this reason.
    Stop(String),
    /// Anything else the stream carries.
    Other,
    /// The stream ended.
    End,
    /// The stream failed with this error.
    Failed(String),
}

/// What reading one event asks of the caller.
pub enum BedrockAction {
    /// Show this fragment and read on.
    Emit(String),
    /// Read on.
    Continue,
    /// The stream is over: everything said and why it stopped.
    Finished(String, Option<String>),
    /// The stream failed.
    Failed(String),
}

/// A Bedrock stream being read: everything said so far, and why it stopped.
pub struct BedrockStream {
    collected: Vec<char>,
    stop_reason: Option<String>,
}

pub struct BedrockStreamModel {
    pub collected: Seq<char>,
    pub stop_reason: Option<Seq<char>>,
}

impl View for BedrockStream {
    type V = BedrockStreamModel;

    closed spec fn view(&self) -> BedrockStreamModel {
        BedrockStreamModel { collected: self.collected@, stop_reason: opt_text(self.stop_reason) }
    }
}

impl BedrockStream {
    pub fn new() -> (s: BedrockStream)
        ensures
            s@ == (BedrockStreamModel { collected: Seq::empty(), stop_reason: None }),
    {
        BedrockStream { collected: Vec::new(), stop_reason: None }
    }

    /// Reads one event.
    pub fn read(&mut self, event: BedrockEvent) -> (action: BedrockAction)
        ensures
            match event {
                BedrockEvent::Delta(Some(t)) => final(self)@ == (BedrockStreamModel {
                    collected: old(self)@.collected + t@,
                    ..old(self)@
                }) && (action matches BedrockAction::Emit(f) && f@ == t@),
                BedrockEvent::Stop(reason) => final(self)@ == (BedrockStreamModel {
                    stop_reason: Some(reason@),
                    ..old(self)@
                }) && action is Continue,
                BedrockEvent::End => final(self)@ == old(self)@ && (action matches BedrockAction::Finished(
                    all,
                    stop,
                ) && all@ == old(self)@.collected && opt_text(stop) == old(self)@.stop_reason),
                BedrockEvent::Failed(e) => final(self)@ == old(self)@ && (action matches BedrockAction::Failed(
                    m,
                ) && m@ == e@),
                _ => final(self)@ == old(self)@ && action is Continue,
            },
    {
        match event {
            BedrockEvent::Delta(Some(t)) => {
                push_str(&mut self.collected, t.as_str());
                BedrockAction::Emit(t)
            },
            BedrockEvent::Stop(reason) => {
                self.stop_reason = Some(reason);
                BedrockAction::Continue
            },
            BedrockEvent::End => {
                let stop = match &self.stop_reason {
                    Some(r) => Some(r.clone()),
                    None => None,
                };
                BedrockAction::Finished(string_of(&self.collected), stop)
            },
            BedrockEvent::Failed(e) => BedrockAction::Failed(e),
            _ => BedrockAction::Continue,
        }
    }
}

/// A Bedrock translation: the answer trimmed, or, when it is empty, an error
/// naming the stop reason.
pub fn bedrock_result(translated: &str, stop_reason: Option<String>) -> (r: Result<String, String>)
    ensures
        trim(translated@).len() == 0 ==> (r matches Err(e) && e@ == "model returned no text (stop reason: "@
            + match opt_text(stop_reason) {
            Some(s) => s,
            None => "unknown"@,
        } + ")"@),
        trim(translated@).len() > 0 ==> (r matches Ok(t) && t@ == trim(translated@)),
{
    let c = chars_of(translated);
    assert(c@.subrange(0, c@.len() as int) =~= c@);
    let t = trim_range(&c, 0, c.len());
    if t.len() == 0 {
        let mut out: Vec<char> = Vec::new();
        push_str(&mut out, "model returned no text (stop reason: ");
        match &stop_reason {
            Some(s) => push_str(&mut out, s.as_str()),
            None => push_str(&mut out, "unknown"),
        }
        push_str(&mut out, ")");
        Err(string_of(&out))
    } else {
        Ok(string_of(&t))
    }
}

} // verus!
