use anthropic_completions::json::Json;
use anthropic_completions::json_serde::{read_json, write_json};
use anthropic_completions::protocol::{ContentItem, ResponseEvent, ResponseItem, TokenUsage};
use anthropic_completions::sse::{
    idle_timeout_error, tool_arguments_text, tool_input_value, transport_error, SseState, SseStep,
    StreamInterruption,
};


fn json(text: &str) -> Json {
    read_json(text).unwrap()
}


fn events(step: SseStep) -> Vec<ResponseEvent> {
    match step {
        SseStep::Events(e) => e,
        other => panic!("expected events, got {:?}", other),
    }
}

fn completed(step: SseStep) -> Vec<ResponseEvent> {
    match step {
        SseStep::Completed(e) => e,
        other => panic!("expected completion, got {:?}", other),
    }
}

#[test]
fn text_stream_is_reported_and_completed() {
    let mut s = SseState::new();
    let e = events(s.handle_data(
        "{\"type\":\"message_start\",\"message\":{\"id\":\"msg_1\",\"model\":\"sonnet-x\"}}",
    ));
    assert_eq!(
        e,
        vec![ResponseEvent::Created {
            response_id: Some("msg_1".to_string()),
            response_model: Some("sonnet-x".to_string()),
        }]
    );
    assert!(events(s.handle_data(
        "{\"type\":\"content_block_start\",\"index\":0,\"content_block\":{\"type\":\"text\",\"text\":\"\"}}"
    ))
    .is_empty());
    let e = events(s.handle_data(
        "{\"type\":\"content_block_delta\",\"index\":0,\"delta\":{\"type\":\"text_delta\",\"text\":\"Hel\"}}",
    ));
    assert_eq!(
        e,
        vec![ResponseEvent::OutputTextDelta { delta: "Hel".to_string(), item_id: None, output_index: Some(0) }]
    );
    events(s.handle_data(
        "{\"type\":\"content_block_delta\",\"index\":0,\"delta\":{\"type\":\"text_delta\",\"text\":\"lo\"}}",
    ));
    assert!(events(s.handle_data("{\"type\":\"content_block_stop\",\"index\":0}")).is_empty());
    assert_eq!(s.block_index, None);
    assert_eq!(s.block_type, None);
    assert!(events(s.handle_data(
        "{\"type\":\"message_delta\",\"delta\":{\"stop_reason\":\"end_turn\"},\"usage\":{\"input_tokens\":10,\"output_tokens\":5}}"
    ))
    .is_empty());
    let e = completed(s.handle_data("{\"type\":\"message_stop\"}"));
    assert_eq!(
        e,
        vec![
            ResponseEvent::OutputItemDone {
                item: ResponseItem::Message {
                    id: None,
                    role: "assistant".to_string(),
                    content: vec![ContentItem::OutputText { text: "Hello".to_string() }],
                },
                output_index: None,
            },
            ResponseEvent::Completed {
                response_id: "msg_1".to_string(),
                token_usage: Some(TokenUsage {
                    input_tokens: 10,
                    cached_input_tokens: 0,
                    output_tokens: 5,
                    reasoning_output_tokens: 0,
                    total_tokens: 15,
                }),
            },
        ]
    );
    assert_eq!(s.assistant_text, "");
    assert_eq!(s.token_usage, None);
}

#[test]
fn tool_use_block_becomes_a_function_call() {
    let mut s = SseState::new();
    events(s.handle_data(
        "{\"type\":\"content_block_start\",\"index\":1,\"content_block\":{\"type\":\"tool_use\",\"id\":\"toolu_1\",\"name\":\"shell\",\"input\":{}}}",
    ));
    events(s.handle_data(
        "{\"type\":\"content_block_delta\",\"index\":1,\"delta\":{\"type\":\"input_json_delta\",\"partial_json\":\"{\\\"cmd\\\": \"}}",
    ));
    events(s.handle_data(
        "{\"type\":\"content_block_delta\",\"index\":1,\"delta\":{\"type\":\"input_json_delta\",\"partial_json\":\"[\\\"ls\\\"]}\"}}",
    ));
    let e = events(s.handle_data("{\"type\":\"content_block_stop\",\"index\":1}"));
    assert_eq!(
        e,
        vec![ResponseEvent::OutputItemDone {
            item: ResponseItem::FunctionCall {
                id: Some("toolu_1".to_string()),
                name: "shell".to_string(),
                arguments: "{\"cmd\":[\"ls\"]}".to_string(),
                call_id: "toolu_1".to_string(),
            },
            output_index: Some(1),
        }]
    );
    assert_eq!(s.tool_use_id, None);
    assert_eq!(s.tool_use_input, "");
}

#[test]
fn tool_use_with_unparsable_input_gets_empty_arguments() {
    let mut s = SseState::new();
    events(s.handle_data(
        "{\"type\":\"content_block_start\",\"index\":0,\"content_block\":{\"type\":\"tool_use\"}}",
    ));
    events(s.handle_data(
        "{\"type\":\"content_block_delta\",\"delta\":{\"type\":\"input_json_delta\",\"partial_json\":\"{oops\"}}",
    ));
    let e = events(s.handle_data("{\"type\":\"content_block_stop\"}"));
    assert_eq!(
        e,
        vec![ResponseEvent::OutputItemDone {
            item: ResponseItem::FunctionCall {
                id: None,
                name: String::new(),
                arguments: "{}".to_string(),
                call_id: String::new(),
            },
            output_index: Some(0),
        }]
    );
}

#[test]
fn thinking_is_streamed_and_completed_as_reasoning() {
    let mut s = SseState::new();
    events(s.handle_data(
        "{\"type\":\"content_block_start\",\"index\":0,\"content_block\":{\"type\":\"thinking\"}}",
    ));
    let e = events(s.handle_data(
        "{\"type\":\"content_block_delta\",\"index\":0,\"delta\":{\"type\":\"thinking_delta\",\"thinking\":\"hmm\"}}",
    ));
    assert_eq!(
        e,
        vec![ResponseEvent::ReasoningContentDelta {
            delta: "hmm".to_string(),
            item_id: None,
            output_index: Some(0),
            content_index: Some(0),
        }]
    );
    let e = completed(s.handle_data("{\"type\":\"message_stop\"}"));
    assert_eq!(
        e,
        vec![
            ResponseEvent::OutputItemDone {
                item: ResponseItem::Reasoning { id: String::new(), content: vec!["hmm".to_string()] },
                output_index: None,
            },
            ResponseEvent::Completed { response_id: String::new(), token_usage: None },
        ]
    );
}

#[test]
fn new_thinking_block_drops_earlier_reasoning() {
    let mut s = SseState::new();
    events(s.handle_data("{\"type\":\"content_block_delta\",\"delta\":{\"type\":\"thinking_delta\",\"thinking\":\"old\"}}"));
    events(s.handle_data("{\"type\":\"content_block_start\",\"index\":2,\"content_block\":{\"type\":\"thinking\"}}"));
    assert_eq!(s.reasoning_text, "");
    assert_eq!(s.block_index, Some(2));
}

#[test]
fn blank_malformed_and_unknown_data() {
    let mut s = SseState::new();
    assert_eq!(s.handle_data("  \n "), SseStep::Skipped);
    assert_eq!(s.handle_data("{not json"), SseStep::Malformed);
    assert_eq!(s.handle_data("{\"type\":\"ping\"}"), SseStep::Events(vec![]));
    assert_eq!(s.handle_data("{\"type\":\"something_new\"}"), SseStep::Events(vec![]));
    assert_eq!(s.handle_data("{\"type\":\"content_block_delta\",\"delta\":{\"type\":\"citations_delta\"}}"), SseStep::Events(vec![]));
    assert_eq!(s, SseState::new());
}

#[test]
fn block_index_is_cut_to_32_bits() {
    let mut s = SseState::new();
    events(s.handle_data("{\"type\":\"content_block_start\",\"index\":4294967297,\"content_block\":{\"type\":\"text\"}}"));
    assert_eq!(s.block_index, Some(1));
}

#[test]
fn usage_without_counts_reports_zero_and_total_wraps() {
    let mut s = SseState::new();
    events(s.handle_data("{\"type\":\"message_delta\",\"usage\":{}}"));
    assert_eq!(
        s.token_usage,
        Some(TokenUsage { input_tokens: 0, cached_input_tokens: 0, output_tokens: 0, reasoning_output_tokens: 0, total_tokens: 0 })
    );
    events(s.handle_data("{\"type\":\"message_delta\",\"usage\":{\"input_tokens\":18446744073709551615,\"output_tokens\":2}}"));
    assert_eq!(s.token_usage.unwrap().total_tokens, 1);
}

#[test]
fn stream_closed_early_completes_with_what_arrived() {
    let mut s = SseState::new();
    events(s.handle_data("{\"type\":\"content_block_delta\",\"delta\":{\"type\":\"text_delta\",\"text\":\"partial\"}}"));
    let e = s.handle_stream_closed();
    assert_eq!(e.len(), 2);
    assert!(matches!(e[1], ResponseEvent::Completed { .. }));
    let e = s.handle_stream_closed();
    assert_eq!(e, vec![ResponseEvent::Completed { response_id: String::new(), token_usage: None }]);
}

#[test]
fn streamed_text_equals_completed_message_text() {
    let mut s = SseState::new();
    let mut streamed = String::new();
    let mut finished = String::new();
    let mut saw_completed = 0;
    let chunks = [
        "{\"type\":\"content_block_delta\",\"delta\":{\"type\":\"text_delta\",\"text\":\"a\"}}",
        "{\"type\":\"content_block_delta\",\"delta\":{\"type\":\"text_delta\",\"text\":\"bc\"}}",
        "{\"type\":\"content_block_stop\"}",
        "{\"type\":\"content_block_delta\",\"delta\":{\"type\":\"text_delta\",\"text\":\"d\"}}",
        "{\"type\":\"message_stop\"}",
    ];
    for c in chunks {
        let evs = match s.handle_data(c) {
            SseStep::Events(e) => e,
            SseStep::Completed(e) => e,
            other => panic!("{:?}", other),
        };
        for e in evs {
            match e {
                ResponseEvent::OutputTextDelta { delta, .. } => streamed.push_str(&delta),
                ResponseEvent::OutputItemDone { item: ResponseItem::Message { content, .. }, .. } => {
                    for c in content {
                        if let ContentItem::OutputText { text } = c {
                            finished.push_str(&text);
                        }
                    }
                }
                ResponseEvent::Completed { .. } => saw_completed += 1,
                _ => {}
            }
        }
    }
    assert_eq!(streamed, "abcd");
    assert_eq!(finished, streamed);
    assert_eq!(saw_completed, 1);
}

#[test]
fn transport_and_idle_errors_carry_the_request_id() {
    let e = transport_error("connection reset", "req-1");
    assert_eq!(e.message, "[transport] connection reset");
    assert_eq!(e.request_id, "req-1");
    let e = idle_timeout_error("req-2");
    assert_eq!(e.message, "[idle] timeout waiting for SSE");
    assert_eq!(e.request_id, "req-2");
}

#[test]
fn handle_chunk_takes_parsed_events() {
    let mut s = SseState::new();
    let chunk = json("{\"type\":\"message_start\",\"message\":{\"id\":7}}");
    let (events, done) = s.handle_chunk(&chunk);
    assert!(!done);
    assert_eq!(events, vec![ResponseEvent::Created { response_id: None, response_model: None }]);
    let (events, done) = s.handle_chunk(&json("{\"type\":\"message_stop\"}"));
    assert!(done);
    assert_eq!(events, vec![ResponseEvent::Completed { response_id: String::new(), token_usage: None }]);
}

#[test]
fn item_id_is_never_set() {
    let mut s = SseState::new();
    for c in [
        "{\"type\":\"message_start\",\"message\":{\"id\":\"m\",\"model\":\"x\"}}",
        "{\"type\":\"content_block_start\",\"index\":0,\"content_block\":{\"type\":\"text\",\"id\":\"i\"}}",
        "{\"type\":\"content_block_delta\",\"delta\":{\"type\":\"text_delta\",\"text\":\"t\"}}",
    ] {
        s.handle_data(c);
    }
    assert_eq!(s.current_item_id, None);
}

#[test]
fn tool_arguments_are_rewritten_as_compact_json() {
    let mut s = SseState::new();
    events(s.handle_data("{\"type\":\"content_block_start\",\"index\":0,\"content_block\":{\"type\":\"tool_use\",\"id\":\"t\",\"name\":\"n\"}}"));
    events(s.handle_data(
        "{\"type\":\"content_block_delta\",\"delta\":{\"type\":\"input_json_delta\",\"partial_json\":\"{ \\\"b\\\" : [1, 2.5, \\\"x\\\"], \\\"a\\\" : {} }\"}}",
    ));
    let e = events(s.handle_data("{\"type\":\"content_block_stop\"}"));
    match &e[0] {
        ResponseEvent::OutputItemDone { item: ResponseItem::FunctionCall { arguments, .. }, .. } => {
            assert_eq!(arguments, "{\"a\":{},\"b\":[1,2.5,\"x\"]}");
        }
        other => panic!("{:?}", other),
    }
}

#[test]
fn tool_call_with_no_input_gets_an_empty_object() {
    let mut s = SseState::new();
    events(s.handle_data("{\"type\":\"content_block_start\",\"content_block\":{\"type\":\"tool_use\",\"id\":\"t\",\"name\":\"n\"}}"));
    assert_eq!(s.block_index, None);
    let e = events(s.handle_data("{\"type\":\"content_block_stop\"}"));
    match &e[0] {
        ResponseEvent::OutputItemDone { item: ResponseItem::FunctionCall { arguments, .. }, output_index } => {
            assert_eq!(arguments, "{}");
            assert_eq!(*output_index, None);
        }
        other => panic!("{:?}", other),
    }
}

#[test]
fn tool_arguments_keep_every_parsed_number() {
    for input in [
        "{\"x\": 0.30000000000000004}",
        "{\"x\": 1.7976931348623157e308, \"y\": 5e-324, \"z\": 2.2250738585072014e-308}",
        "{\"n\": -12, \"f\": 123456789.12345678, \"g\": 9007199254740993.0}",
    ] {
        let mut s = SseState::new();
        events(s.handle_data("{\"type\":\"content_block_start\",\"content_block\":{\"type\":\"tool_use\",\"id\":\"t\",\"name\":\"n\"}}"));
        let partial = serde_json::to_string(&serde_json::Value::String(input.to_string())).unwrap();
        let delta = format!(
            "{{\"type\":\"content_block_delta\",\"delta\":{{\"type\":\"input_json_delta\",\"partial_json\":{}}}}}",
            partial
        );
        events(s.handle_data(&delta));
        let e = events(s.handle_data("{\"type\":\"content_block_stop\"}"));
        let expected = serde_json::to_string(&serde_json::from_str::<serde_json::Value>(input).unwrap()).unwrap();
        match &e[0] {
            ResponseEvent::OutputItemDone { item: ResponseItem::FunctionCall { arguments, .. }, .. } => {
                assert_eq!(arguments, &expected);
            }
            other => panic!("{:?}", other),
        }
    }
}

#[test]
fn tool_input_value_and_arguments_text() {
    assert_eq!(tool_input_value(None), Json::Object(Vec::new()));
    assert_eq!(tool_input_value(Some(Json::Bool(true))), Json::Bool(true));
    assert_eq!(tool_arguments_text(Some("{}".to_string()), "raw"), "{}");
    assert_eq!(tool_arguments_text(None, "raw"), "raw");
}

#[test]
fn quiet_events_change_nothing_reported() {
    let base = [
        "{\"type\":\"message_start\",\"message\":{\"id\":\"m\"}}",
        "{\"type\":\"content_block_delta\",\"delta\":{\"type\":\"text_delta\",\"text\":\"hi\"}}",
        "{\"type\":\"message_delta\",\"usage\":{\"output_tokens\":3}}",
        "{\"type\":\"message_stop\"}",
    ];
    let quiet = [
        " ",
        "{oops",
        "{\"type\":\"ping\"}",
        "{\"no_type\":1}",
        "{\"type\":\"content_block_delta\",\"delta\":{\"type\":\"signature_delta\"}}",
        "{\"type\":\"message_delta\",\"delta\":{}}",
    ];
    let run = |data: &[&str]| {
        let mut s = SseState::new();
        let mut out = Vec::new();
        for d in data {
            match s.handle_data(d) {
                SseStep::Events(e) => out.extend(e),
                SseStep::Completed(e) => {
                    out.extend(e);
                    break;
                }
                _ => {}
            }
        }
        (s, out)
    };
    let plain = run(&base);
    let mut mixed: Vec<&str> = Vec::new();
    for (i, d) in base.iter().enumerate() {
        mixed.push(quiet[i % quiet.len()]);
        mixed.push(d);
        mixed.push(quiet[(i + 3) % quiet.len()]);
    }
    assert_eq!(run(&mixed), plain);
}

#[test]
fn interruptions_end_the_stream() {
    let mut s = SseState::new();
    events(s.handle_data("{\"type\":\"content_block_delta\",\"delta\":{\"type\":\"text_delta\",\"text\":\"x\"}}"));
    let (e, err) = s.handle_interruption(&StreamInterruption::TransportFailed { detail: "reset".to_string() }, "r1");
    assert!(e.is_empty());
    assert_eq!(err.unwrap().message, "[transport] reset");
    assert_eq!(s.assistant_text, "x");
    let (e, err) = s.handle_interruption(&StreamInterruption::IdleTimeout, "r2");
    assert!(e.is_empty());
    let err = err.unwrap();
    assert_eq!((err.message.as_str(), err.request_id.as_str()), ("[idle] timeout waiting for SSE", "r2"));
    let (e, err) = s.handle_interruption(&StreamInterruption::Closed, "r3");
    assert!(err.is_none());
    assert_eq!(e.len(), 2);
}
