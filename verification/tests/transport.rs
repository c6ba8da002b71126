use tonemate::json::Json;
use tonemate::provider::{Endpoint, Provider};
use tonemate::sse::Decoder;
use tonemate::transport::{
    bedrock_result, effort, failure_message, refusal_message, request_body, stream_outcome, BedrockAction,
    BedrockEvent, BedrockStream,
};

fn s(text: &str) -> Json {
    Json::Str(text.to_string())
}

fn message(role: &str, content: &str) -> Json {
    Json::Object(vec![
        ("role".to_string(), s(role)),
        ("content".to_string(), s(content)),
    ])
}

#[test]
fn a_kimi_request_switches_reasoning_off() {
    let body = request_body(&Provider::kimi_endpoint("k", None, None), "sys", "text", 4096);
    assert_eq!(
        body,
        Json::Object(vec![
            ("model".to_string(), s("kimi-k2.6")),
            ("stream".to_string(), Json::Bool(true)),
            ("max_completion_tokens".to_string(), Json::Number("4096".to_string())),
            (
                "messages".to_string(),
                Json::Array(vec![message("system", "sys"), message("user", "text")])
            ),
            (
                "thinking".to_string(),
                Json::Object(vec![("type".to_string(), s("disabled"))])
            ),
        ])
    );
}

#[test]
fn a_qwen_request_turns_thinking_off_and_uses_max_tokens() {
    let body = request_body(&Provider::qwen_endpoint("k", None, None), "p", "t", 1);
    match body {
        Json::Object(members) => {
            assert_eq!(members.len(), 5);
            assert_eq!(members[2], ("max_tokens".to_string(), Json::Number("1".to_string())));
            assert_eq!(members[4], ("enable_thinking".to_string(), Json::Bool(false)));
        }
        _ => panic!("expected an object"),
    }
    let body = request_body(&Provider::deepseek_endpoint("k", None, None), "p", "t", 0);
    match body {
        Json::Object(members) => {
            assert_eq!(members.len(), 4);
            assert_eq!(members[0], ("model".to_string(), s("deepseek-chat")));
        }
        _ => panic!("expected an object"),
    }
}

#[test]
fn an_extra_member_overrides_a_common_field_in_place() {
    let endpoint = Endpoint {
        base_url: "http://x".to_string(),
        model: "m".to_string(),
        api_key: String::new(),
        max_tokens_field: "max_tokens",
        extra: Json::Object(vec![
            ("stream".to_string(), Json::Bool(false)),
            ("temperature".to_string(), Json::Number("0.2".to_string())),
        ]),
    };
    match request_body(&endpoint, "p", "t", 7) {
        Json::Object(members) => {
            assert_eq!(members.len(), 5);
            assert_eq!(members[1], ("stream".to_string(), Json::Bool(false)));
            assert_eq!(members[4], ("temperature".to_string(), Json::Number("0.2".to_string())));
        }
        _ => panic!("expected an object"),
    }
}

#[test]
fn a_refusal_reports_the_providers_own_message() {
    assert_eq!(
        failure_message(
            "401 Unauthorized",
            r#"{"error":{"message":"Invalid Authentication","type":"invalid_authentication_error"}}"#
        ),
        "Invalid Authentication"
    );
    assert_eq!(
        failure_message("502 Bad Gateway", "  upstream down \n"),
        "HTTP 502 Bad Gateway: upstream down"
    );
    assert_eq!(
        failure_message("400 Bad Request", r#"{"error":"plain"}"#),
        "HTTP 400 Bad Request: {\"error\":\"plain\"}"
    );
}

#[test]
fn an_empty_stream_explains_itself() {
    let mut decoder = Decoder::default();
    decoder
        .push(b"data: {\"choices\":[{\"delta\":{},\"finish_reason\":\"length\"}]}\n\n")
        .unwrap();
    assert_eq!(
        stream_outcome("  \n".to_string(), &decoder),
        Err("model returned no text (finish reason: length)".to_string())
    );
    assert_eq!(
        stream_outcome("hi".to_string(), &decoder),
        Ok(("hi".to_string(), Some("length".to_string())))
    );
    let fresh = Decoder::default();
    assert_eq!(
        stream_outcome(String::new(), &fresh),
        Err("model returned no text (finish reason: unknown)".to_string())
    );

    let mut thinking = Decoder::default();
    thinking
        .push(b"data: {\"choices\":[{\"delta\":{\"reasoning_content\":\"x\"}}]}\n\n")
        .unwrap();
    assert!(stream_outcome(String::new(), &thinking)
        .unwrap_err()
        .starts_with("the model spent its whole budget reasoning"));
}

#[test]
fn the_effort_defaults_to_low_and_can_be_dropped() {
    assert_eq!(effort(None), Some("low".to_string()));
    assert_eq!(effort(Some(String::new())), None);
    assert_eq!(effort(Some("high".to_string())), Some("high".to_string()));
}

#[test]
fn a_bedrock_stream_collects_deltas_and_the_stop_reason() {
    let mut stream = BedrockStream::new();
    assert!(matches!(
        stream.read(BedrockEvent::Delta(Some("直译\t".to_string()))),
        BedrockAction::Emit(f) if f == "直译\t"
    ));
    assert!(matches!(stream.read(BedrockEvent::Delta(None)), BedrockAction::Continue));
    assert!(matches!(stream.read(BedrockEvent::Other), BedrockAction::Continue));
    assert!(matches!(
        stream.read(BedrockEvent::Delta(Some("Hi".to_string()))),
        BedrockAction::Emit(_)
    ));
    assert!(matches!(
        stream.read(BedrockEvent::Stop("end_turn".to_string())),
        BedrockAction::Continue
    ));
    match stream.read(BedrockEvent::End) {
        BedrockAction::Finished(all, stop) => {
            assert_eq!(all, "直译\tHi");
            assert_eq!(stop, Some("end_turn".to_string()));
        }
        _ => panic!("expected the end"),
    }
    assert!(matches!(
        stream.read(BedrockEvent::Failed("boom".to_string())),
        BedrockAction::Failed(m) if m == "boom"
    ));
}

#[test]
fn a_bedrock_answer_is_trimmed_or_explained() {
    assert_eq!(bedrock_result("  hi \n", None), Ok("hi".to_string()));
    assert_eq!(
        bedrock_result(" ", Some("max_tokens".to_string())),
        Err("model returned no text (stop reason: max_tokens)".to_string())
    );
    assert_eq!(
        bedrock_result("", None),
        Err("model returned no text (stop reason: unknown)".to_string())
    );
}

#[test]
fn a_refusal_body_is_read_as_json_whatever_its_spacing() {
    assert_eq!(
        failure_message("429 Too Many Requests", " {\"error\" : {\"type\":\"x\", \"message\" : \"slow down\"}} "),
        "slow down"
    );
    assert_eq!(
        failure_message("500", r#"{"error":{"message":42}}"#),
        "HTTP 500: {\"error\":{\"message\":42}}"
    );
}

#[test]
fn a_parsed_refusal_body_is_read_for_its_message() {
    let body = Json::Object(vec![(
        "error".to_string(),
        Json::Object(vec![("message".to_string(), s("Invalid Authentication"))]),
    )]);
    assert_eq!(refusal_message("401 Unauthorized", "ignored", &Some(body)), "Invalid Authentication");
    assert_eq!(refusal_message("401 Unauthorized", " raw \n", &None), "HTTP 401 Unauthorized: raw");
    let no_message = Json::Object(vec![("error".to_string(), s("plain"))]);
    assert_eq!(refusal_message("400", "{}", &Some(no_message)), "HTTP 400: {}");
}
