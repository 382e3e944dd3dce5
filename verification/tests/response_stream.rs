use tule_desktop::openai_chatgpt::sse::{
    contains_unsupported_provider_output, emit_complete_sse_events, emit_provider_batch,
    event_delimiter_len, find_event_boundary, finish_sse_stream, is_unsupported_provider_output_type,
    parse_sse_buffer, parse_sse_event, receive_sse_piece,
};
use tule_desktop::json::{JsonNumber, JsonValue};
use tule_desktop::openai_chatgpt::MAX_SSE_BUFFER;
use tule_desktop::provider::{ProviderEvent, PublicError};

fn completed(id: Option<&str>) -> ProviderEvent {
    ProviderEvent::Completed {
        response_id: id.map(str::to_owned),
        input_tokens: None,
        output_tokens: None,
    }
}

#[test]
fn tool_events_are_rejected() {
    for event in [
        r#"data: {"type":"response.function_call"}"#,
        r#"data: {"type":"response.output_item.added","item":{"type":"function_call"}}"#,
    ] {
        let mut output = Vec::new();
        assert_eq!(
            parse_sse_event(event.as_bytes(), &mut output),
            Err(PublicError::UnsupportedProviderOutput)
        );
    }
}

#[test]
fn terminal_can_arrive_before_delta() {
    let mut output = Vec::new();
    parse_sse_event(
        br#"data: {"type":"response.completed","response":{"id":"response-1"}}"#,
        &mut output,
    )
    .unwrap();
    assert!(matches!(
        output.as_slice(),
        [ProviderEvent::Completed { .. }]
    ));

    output.clear();
    parse_sse_event(
        br#"data: {"type":"response.output_text.done"}"#,
        &mut output,
    )
    .unwrap();
    parse_sse_event(b"data: [DONE]", &mut output).unwrap();
    assert!(output.is_empty());
}

#[test]
fn sse_requires_exact_response_terminal_and_stops_after_completion() {
    let mut events = Vec::new();
    parse_sse_buffer(
        b"data: {\"type\":\"response.output_text.delta\",\"delta\":\"hello\"}\n\ndata: {\"type\":\"response.output_text.done\"}\n\ndata: {\"type\":\"response.completed\",\"response\":{\"id\":\"r1\"}}\n\ndata: [DONE]\n\n",
        false,
        &mut events,
    )
    .unwrap();
    assert!(matches!(
        events.as_slice(),
        [ProviderEvent::Delta(text), ProviderEvent::Completed { response_id: Some(id), .. }]
            if text == "hello" && id == "r1"
    ));

    let mut discard = Vec::new();
    let incomplete = parse_sse_buffer(
        b"data: {\"type\":\"response.output_text.done\"}\n\ndata: [DONE]\n\n",
        false,
        &mut discard,
    );
    assert_eq!(incomplete, Err(PublicError::ProviderUnavailable));

    let mut duplicate_events = Vec::new();
    parse_sse_buffer(
        b"data: {\"type\":\"response.completed\",\"response\":{}}\n\ndata: {\"type\":\"response.completed\",\"response\":{}}\n\n",
        false,
        &mut duplicate_events,
    )
    .unwrap();
    assert!(matches!(
        duplicate_events.as_slice(),
        [ProviderEvent::Completed { .. }]
    ));
}

#[test]
fn cancelled_stream_reads_nothing() {
    let mut events = Vec::new();
    assert_eq!(
        parse_sse_buffer(b"data: {\"type\":\"response.completed\"}\n\n", true, &mut events),
        Err(PublicError::Cancelled)
    );
    assert!(events.is_empty());
}

#[test]
fn completed_event_carries_usage_and_multi_line_data_is_joined() {
    let mut output = Vec::new();
    parse_sse_event(
        b"event: x\r\ndata: {\"type\":\"response.completed\",\r\ndata:   \"response\":{\"id\":\"r9\",\"usage\":{\"input_tokens\":12,\"output_tokens\":34}}}",
        &mut output,
    )
    .unwrap();
    assert_eq!(
        output,
        vec![ProviderEvent::Completed {
            response_id: Some("r9".to_owned()),
            input_tokens: Some(12),
            output_tokens: Some(34),
        }]
    );
}

#[test]
fn sse_event_errors() {
    let mut output = Vec::new();
    assert_eq!(
        parse_sse_event(b"data: {\"type\":\"response.failed\"}", &mut output),
        Err(PublicError::ProviderUnavailable)
    );
    assert_eq!(
        parse_sse_event(b"data: {\"type\":\"error\"}", &mut output),
        Err(PublicError::ProviderUnavailable)
    );
    assert_eq!(
        parse_sse_event(b"data: {not json", &mut output),
        Err(PublicError::ProviderUnavailable)
    );
    assert_eq!(
        parse_sse_event(&[0xff, 0xfe], &mut output),
        Err(PublicError::ProviderUnavailable)
    );
    assert_eq!(
        parse_sse_event(b"data: {\"type\":\"response.output_text.delta\"}", &mut output),
        Err(PublicError::ProviderUnavailable)
    );
    let oversized = vec![b' '; MAX_SSE_BUFFER + 1];
    assert_eq!(
        parse_sse_event(&oversized, &mut output),
        Err(PublicError::OutputLimit)
    );
    assert!(output.is_empty());
    parse_sse_event(b": comment only", &mut output).unwrap();
    assert!(output.is_empty());
}

#[test]
fn unsupported_output_types_cover_tools_and_calls() {
    for kind in [
        "function_call",
        "response.tool",
        "computer_call_output",
        "web_search_call",
        "x_mcp_call_y",
        "shell_call",
        "image_generation_call",
        "custom_call",
    ] {
        assert!(is_unsupported_provider_output_type(kind), "{kind}");
    }
    for kind in ["response.output_text.delta", "message", "call_center", ""] {
        assert!(!is_unsupported_provider_output_type(kind), "{kind}");
    }
    let number = || JsonValue::Number(JsonNumber { unsigned: Some(1), signed: Some(1) });
    let typed = |kind: &str| {
        JsonValue::Object(vec![("type".to_string(), JsonValue::String(kind.to_string()))])
    };
    // {"a":[1,{"b":{"type":"shell_call"}}]}
    let nested = JsonValue::Object(vec![(
        "a".to_string(),
        JsonValue::Array(vec![
            number(),
            JsonValue::Object(vec![("b".to_string(), typed("shell_call"))]),
        ]),
    )]);
    assert!(contains_unsupported_provider_output(&nested));
    // {"a":[1,{"type":"message"}],"kind":"tool"}
    let benign = JsonValue::Object(vec![
        ("a".to_string(), JsonValue::Array(vec![number(), typed("message")])),
        ("kind".to_string(), JsonValue::String("tool".to_string())),
    ]);
    assert!(!contains_unsupported_provider_output(&benign));
}

#[test]
fn event_boundaries_prefer_carriage_return_blank_lines() {
    assert_eq!(find_event_boundary(b"ab\n\ncd\r\n\r\n"), Some(6));
    assert_eq!(find_event_boundary(b"ab\n\ncd"), Some(2));
    assert_eq!(find_event_boundary(b"abcd\n"), None);
    assert_eq!(event_delimiter_len(b"\r\n\r\nx"), 4);
    assert_eq!(event_delimiter_len(b"\n\nx"), 2);
    assert_eq!(event_delimiter_len(b"x\n\n"), 0);
}

#[test]
fn batches_refuse_events_after_the_terminal() {
    let mut saw = false;
    let mut sink = Vec::new();
    assert_eq!(
        emit_provider_batch(
            vec![ProviderEvent::Delta("a".into()), completed(None), ProviderEvent::Delta("b".into())],
            &mut saw,
            &mut sink,
        ),
        Err(PublicError::ProviderUnavailable)
    );
    assert!(saw);
    assert_eq!(sink, vec![ProviderEvent::Delta("a".into()), completed(None)]);
    assert_eq!(
        emit_provider_batch(vec![completed(Some("x"))], &mut saw, &mut sink),
        Err(PublicError::ProviderUnavailable)
    );
    assert_eq!(sink.len(), 2);
}

#[test]
fn pieces_accumulate_until_a_complete_event_arrives() {
    let mut buffer = Vec::new();
    let mut saw = false;
    let mut sink = Vec::new();
    receive_sse_piece(&mut buffer, &mut saw, b"data: {\"type\":\"response.output_text.delta\",", &mut sink).unwrap();
    assert!(sink.is_empty());
    receive_sse_piece(&mut buffer, &mut saw, b"\"delta\":\"hi\"}\n\ndata: {\"type\"", &mut sink).unwrap();
    assert_eq!(sink, vec![ProviderEvent::Delta("hi".into())]);
    assert_eq!(buffer, b"data: {\"type\"".to_vec());
    emit_complete_sse_events(&mut buffer, &mut saw, &mut sink).unwrap();
    assert_eq!(sink.len(), 1);
    let mut tail = buffer.clone();
    tail.extend_from_slice(b":\"response.completed\"}");
    assert_eq!(finish_sse_stream(&tail, &mut saw, &mut sink), Ok(()));
    assert!(saw);
    assert_eq!(sink.len(), 2);

    let mut big_buffer = vec![b'a'; MAX_SSE_BUFFER];
    let mut saw = false;
    assert_eq!(
        receive_sse_piece(&mut big_buffer, &mut saw, b"b", &mut sink),
        Err(PublicError::OutputLimit)
    );
    assert_eq!(finish_sse_stream(&[], &mut saw, &mut sink), Err(PublicError::ProviderUnavailable));
}

#[test]
fn found_boundaries_start_a_blank_line() {
    for buffer in [&b"ab\r\n\r\ncd"[..], b"ab\n\ncd", b"x\r\n\n\ny", b"\n\n"] {
        let p = find_event_boundary(buffer).unwrap();
        let expected = if buffer[p..].starts_with(b"\r\n\r\n") { 4 } else { 2 };
        assert_eq!(event_delimiter_len(&buffer[p..]), expected);
    }
    assert_eq!(event_delimiter_len(b"x"), 0);
    assert_eq!(event_delimiter_len(b"\n\nx"), 2);
}
