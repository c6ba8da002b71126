use tonemate::json::Json;
use tonemate::sse::Decoder;

/// Every fragment the decoder emitted across a whole stream.
fn feed(chunks: &[&str]) -> Result<Vec<String>, String> {
    let mut decoder = Decoder::default();
    let mut out = Vec::new();
    for chunk in chunks {
        out.extend(decoder.push(chunk.as_bytes())?);
    }
    Ok(out)
}

fn frame(delta: &str) -> String {
    format!("data: {{\"choices\":[{{\"index\":0,\"delta\":{delta},\"finish_reason\":null}}]}}\n\n")
}

#[test]
fn content_deltas_become_fragments() {
    let stream = format!(
        "{}{}data: [DONE]\n\n",
        frame(r#"{"content":"直译\t"}"#),
        frame(r#"{"content":"I can't come."}"#)
    );
    assert_eq!(feed(&[&stream]).unwrap(), vec!["直译\t", "I can't come."]);
}

#[test]
fn the_opening_role_frame_emits_nothing() {
    let stream = frame(r#"{"role":"assistant","content":""}"#);
    assert_eq!(feed(&[&stream]).unwrap(), Vec::<String>::new());
}

#[test]
fn reasoning_deltas_are_skipped_but_remembered() {
    let mut decoder = Decoder::default();
    let stream = format!(
        "{}{}",
        frame(r#"{"reasoning_content":"The user wants"}"#),
        frame(r#"{"content":"直译\tHello."}"#)
    );
    assert_eq!(
        decoder.push(stream.as_bytes()).unwrap(),
        vec!["直译\tHello."]
    );
    assert!(decoder.saw_reasoning());
}

#[test]
fn a_frame_split_across_chunks_is_reassembled() {
    let whole = format!(
        "{}{}data: [DONE]\n\n",
        frame(r#"{"content":"直译\t"}"#),
        frame(r#"{"content":"晚上好"}"#)
    );
    let bytes = whole.as_bytes();
    for split in 1..bytes.len() {
        let mut decoder = Decoder::default();
        let mut out = Vec::new();
        out.extend(decoder.push(&bytes[..split]).unwrap());
        out.extend(decoder.push(&bytes[split..]).unwrap());
        assert_eq!(
            out.concat(),
            "直译\t晚上好",
            "split at byte {split} changed the result"
        );
    }
}

#[test]
fn several_frames_in_one_chunk_all_arrive() {
    let stream = format!(
        "{}{}{}",
        frame(r#"{"content":"a"}"#),
        frame(r#"{"content":"b"}"#),
        frame(r#"{"content":"c"}"#)
    );
    assert_eq!(feed(&[&stream]).unwrap(), vec!["a", "b", "c"]);
}

#[test]
fn carriage_returns_and_blank_lines_are_tolerated() {
    let stream = "\r\ndata: {\"choices\":[{\"delta\":{\"content\":\"a\"}}]}\r\n\r\ndata: [DONE]\r\n\r\n";
    assert_eq!(feed(&[stream]).unwrap(), vec!["a"]);
}

#[test]
fn non_data_lines_are_ignored() {
    let stream = format!(": keep-alive\nevent: message\n{}", frame(r#"{"content":"a"}"#));
    assert_eq!(feed(&[&stream]).unwrap(), vec!["a"]);
}

#[test]
fn unrecognised_frames_are_skipped() {
    let stream = format!(
        "data: {{\"choices\":[{{\"delta\":{{\"tool_calls\":[]}}}}]}}\n\n{}",
        frame(r#"{"content":"a"}"#)
    );
    assert_eq!(feed(&[&stream]).unwrap(), vec!["a"]);
}

#[test]
fn malformed_json_is_skipped() {
    let stream = format!("data: {{ not json\n\n{}", frame(r#"{"content":"a"}"#));
    assert_eq!(feed(&[&stream]).unwrap(), vec!["a"]);
}

#[test]
fn an_error_frame_becomes_an_error() {
    for (body, expected) in [
        (
            r#"{"error":{"message":"Invalid Authentication","type":"invalid_authentication_error"}}"#,
            "Invalid Authentication",
        ),
        (
            r#"{"error":{"message":"suspended due to insufficient balance","type":"exceeded_current_quota_error"}}"#,
            "suspended due to insufficient balance",
        ),
    ] {
        let stream = format!("data: {body}\n\n");
        assert_eq!(feed(&[&stream]), Err(expected.to_string()));
    }
}

#[test]
fn the_finish_reason_is_captured() {
    let mut decoder = Decoder::default();
    let stream = "data: {\"choices\":[{\"delta\":{},\"finish_reason\":\"length\"}]}\n\ndata: [DONE]\n\n";
    decoder.push(stream.as_bytes()).unwrap();
    assert_eq!(decoder.finish_reason(), Some("length"));
}

#[test]
fn a_reasoning_only_stream_yields_no_text_but_explains_itself() {
    let mut decoder = Decoder::default();
    let stream = format!(
        "{}data: {{\"choices\":[{{\"delta\":{{}},\"finish_reason\":\"length\"}}]}}\n\n",
        frame(r#"{"reasoning_content":"thinking..."}"#)
    );
    assert_eq!(decoder.push(stream.as_bytes()).unwrap(), Vec::<String>::new());
    assert!(decoder.saw_reasoning());
    assert_eq!(decoder.finish_reason(), Some("length"));
}

#[test]
fn chunks_split_anywhere_give_the_same_fragments_and_facts() {
    let whole = format!(
        "{}{}data: {{\"choices\":[{{\"delta\":{{}},\"finish_reason\":\"stop\"}}]}}\n\n",
        frame(r#"{"reasoning_content":"hm"}"#),
        frame(r#"{"content":"正式\t晚上好"}"#)
    );
    let bytes = whole.as_bytes();
    let mut one = Decoder::default();
    let all = one.push(bytes).unwrap();
    for split in 0..=bytes.len() {
        let mut decoder = Decoder::default();
        let mut out = decoder.push(&bytes[..split]).unwrap();
        out.extend(decoder.push(&bytes[split..]).unwrap());
        assert_eq!(out, all);
        assert_eq!(decoder.saw_reasoning(), one.saw_reasoning());
        assert_eq!(decoder.finish_reason(), one.finish_reason());
    }
    assert_eq!(one.finish_reason(), Some("stop"));
}

#[test]
fn an_invalid_utf8_line_is_decoded_lossily_not_dropped() {
    let mut stream: Vec<u8> = b"data: {\"choices\":[{\"delta\":{\"content\":\"a".to_vec();
    stream.push(0xff);
    stream.extend_from_slice(b"b\"}}]}\n\n");
    let mut decoder = Decoder::default();
    assert_eq!(decoder.push(&stream).unwrap(), vec!["a\u{fffd}b"]);
}

#[test]
fn a_line_without_its_newline_waits() {
    let mut decoder = Decoder::default();
    assert_eq!(decoder.push(b"data: {\"choices\":[{\"delta\":{\"content\":\"a\"}}]}").unwrap(), Vec::<String>::new());
    assert_eq!(decoder.push(b"\n").unwrap(), vec!["a"]);
}

#[test]
fn a_decoded_line_is_read_as_its_payload() {
    let mut decoder = Decoder::default();
    assert_eq!(
        decoder.read_line("data: {\"choices\":[{\"delta\":{\"content\":\"x\"}}]}\r\n"),
        Ok(vec!["x".to_string()])
    );
    assert_eq!(decoder.read_line(": comment\n"), Ok(vec![]));
    assert_eq!(decoder.read_line("data: [DONE]\n"), Ok(vec![]));
    assert_eq!(decoder.read_line("data:[DONE]"), Ok(vec![]));
}

#[test]
fn a_parsed_frame_is_absorbed_choice_by_choice() {
    let choice = |content: Json, reason: Json| {
        Json::Object(vec![
            (
                "delta".to_string(),
                Json::Object(vec![("content".to_string(), content)]),
            ),
            ("finish_reason".to_string(), reason),
        ])
    };
    let frame = Json::Object(vec![(
        "choices".to_string(),
        Json::Array(vec![
            choice(Json::Str("a".to_string()), Json::Null),
            choice(Json::Str(String::new()), Json::Str("stop".to_string())),
            choice(Json::Null, Json::Null),
        ]),
    )]);
    let mut decoder = Decoder::default();
    assert_eq!(decoder.read_frame(&frame), Ok(vec!["a".to_string()]));
    assert_eq!(decoder.finish_reason(), Some("stop"));
    assert!(!decoder.saw_reasoning());

    let error = Json::Object(vec![(
        "error".to_string(),
        Json::Object(vec![("message".to_string(), Json::Str("no".to_string()))]),
    )]);
    assert_eq!(decoder.read_frame(&error), Err("no".to_string()));
    assert_eq!(decoder.read_frame(&Json::Array(vec![])), Ok(vec![]));
    assert_eq!(decoder.read_frame(&Json::Object(vec![])), Ok(vec![]));
}
