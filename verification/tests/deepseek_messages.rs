//! How chat requests are written and stream chunks are read.
use attini::sansio::deepseek::{
    decode_stream_payload, ChatMessage, ChatRequest, StreamChunk, StreamPayload, ToolCall,
    ToolDef, Usage,
};

#[test]
fn chat_request_serialises_model_messages_and_stream_flag() {
    let request = ChatRequest::new(
        "deepseek-v4-flash",
        vec![
            ChatMessage::System("You are a helpful assistant.".to_string()),
            ChatMessage::User("Hello".to_string()),
        ],
    );
    assert_eq!(
        request.to_json_string(),
        r#"{"model":"deepseek-v4-flash","messages":[{"role":"system","content":"You are a helpful assistant."},{"role":"user","content":"Hello"}],"stream":true,"stream_options":{"include_usage":true}}"#
    );
}

#[test]
fn chat_request_escapes_special_characters() {
    let request = ChatRequest::new(
        "m",
        vec![ChatMessage::User("line1\nline2\t\"quoted\"".to_string())],
    );
    let json = request.to_json_string();
    assert!(json.contains(r#""content":"line1\nline2\t\"quoted\"""#));
}

#[test]
fn chat_request_omits_tools_when_empty() {
    let request = ChatRequest::new("m", vec![ChatMessage::User("hi".to_string())]);
    let json = request.to_json_string();
    assert!(!json.contains("\"tools\""), "unexpected tools: {json}");
}

#[test]
fn chat_request_serialises_tools_when_present() {
    let request =
        ChatRequest::new("m", vec![ChatMessage::User("hi".to_string())]).with_tools(vec![
            ToolDef {
                name: "list".to_string(),
                description: "List entries".to_string(),
                parameters_json: r#"{"type":"object","properties":{}}"#.to_string(),
            },
        ]);
    let json = request.to_json_string();
    assert!(json.contains(r#""tools":[{"type":"function","function":{"name":"list","description":"List entries","parameters":{"type":"object","properties":{}}}}]"#), "unexpected: {json}");
}

#[test]
fn assistant_message_without_tool_calls_serialises_content() {
    let msg = ChatMessage::assistant_text("hello");
    let json = msg.to_json_string();
    assert_eq!(json, r#"{"role":"assistant","content":"hello"}"#);
}

#[test]
fn assistant_message_with_tool_calls_uses_null_content_when_empty() {
    let msg = ChatMessage::Assistant {
        content: String::new(),
        reasoning_content: None,
        tool_calls: vec![ToolCall {
            id: "call_1".to_string(),
            function_name: "list".to_string(),
            arguments_json: r#"{"path":"."}"#.to_string(),
        }],
    };
    let json = msg.to_json_string();
    assert_eq!(
        json,
        r#"{"role":"assistant","content":null,"tool_calls":[{"id":"call_1","type":"function","function":{"name":"list","arguments":"{\"path\":\".\"}"}}]}"#
    );
}

#[test]
fn assistant_message_with_reasoning_serialises_field() {
    let msg = ChatMessage::Assistant {
        content: "answer".to_string(),
        reasoning_content: Some("thinking...".to_string()),
        tool_calls: Vec::new(),
    };
    let json = msg.to_json_string();
    assert_eq!(
        json,
        r#"{"role":"assistant","content":"answer","reasoning_content":"thinking..."}"#
    );
}

#[test]
fn tool_message_serialises_role_and_call_id() {
    let msg = ChatMessage::Tool {
        tool_call_id: "call_1".to_string(),
        content: "[]".to_string(),
    };
    let json = msg.to_json_string();
    assert_eq!(
        json,
        r#"{"role":"tool","tool_call_id":"call_1","content":"[]"}"#
    );
}

#[test]
fn decodes_content_delta_chunk() {
    let payload = r#"{"id":"c","object":"chat.completion.chunk","choices":[{"index":0,"delta":{"content":"hi"},"finish_reason":null}]}"#;
    let got = decode_stream_payload(payload).expect("decode");
    assert_eq!(
        got,
        StreamPayload::Chunk(StreamChunk {
            content_delta: Some("hi".to_string()),
            ..Default::default()
        })
    );
}

#[test]
fn decodes_reasoning_delta_chunk() {
    let payload = r#"{"choices":[{"index":0,"delta":{"reasoning_content":"thinking..."},"finish_reason":null}]}"#;
    let got = decode_stream_payload(payload).expect("decode");
    assert_eq!(
        got,
        StreamPayload::Chunk(StreamChunk {
            reasoning_delta: Some("thinking...".to_string()),
            ..Default::default()
        })
    );
}

#[test]
fn decodes_tool_call_deltas() {
    let payload = r#"{"choices":[{"index":0,"delta":{"tool_calls":[{"index":0,"id":"call_1","function":{"name":"list","arguments":"{\"pa"}},{"index":1,"function":{"arguments":"th"}}]},"finish_reason":null}]}"#;
    let got = decode_stream_payload(payload).expect("decode");
    let chunk = match got {
        StreamPayload::Chunk(c) => c,
        _ => panic!("expected chunk"),
    };
    assert_eq!(chunk.tool_call_deltas.len(), 2);
    assert_eq!(chunk.tool_call_deltas[0].index, 0);
    assert_eq!(chunk.tool_call_deltas[0].id.as_deref(), Some("call_1"));
    assert_eq!(
        chunk.tool_call_deltas[0].function_name.as_deref(),
        Some("list")
    );
    assert_eq!(
        chunk.tool_call_deltas[0].arguments_fragment.as_deref(),
        Some(r#"{"pa"#)
    );
    assert_eq!(chunk.tool_call_deltas[1].index, 1);
    assert!(chunk.tool_call_deltas[1].id.is_none());
    assert!(chunk.tool_call_deltas[1].function_name.is_none());
    assert_eq!(
        chunk.tool_call_deltas[1].arguments_fragment.as_deref(),
        Some("th")
    );
}

#[test]
fn decodes_finish_reason_on_terminating_chunk() {
    let payload = r#"{"choices":[{"index":0,"delta":{},"finish_reason":"stop"}]}"#;
    let got = decode_stream_payload(payload).expect("decode");
    assert_eq!(
        got,
        StreamPayload::Chunk(StreamChunk {
            finish_reason: Some("stop".to_string()),
            ..Default::default()
        })
    );
}

#[test]
fn missing_delta_yields_empty_deltas() {
    let payload = r#"{"choices":[{"index":0,"finish_reason":null}]}"#;
    let got = decode_stream_payload(payload).expect("decode");
    assert_eq!(got, StreamPayload::Chunk(StreamChunk::default()));
}

#[test]
fn missing_choices_yields_empty_chunk() {
    let payload = r#"{"id":"c","object":"chat.completion.chunk"}"#;
    let got = decode_stream_payload(payload).expect("decode");
    assert_eq!(got, StreamPayload::Chunk(StreamChunk::default()));
}

#[test]
fn empty_choices_array_with_usage_yields_usage_only_chunk() {
    // OpenAI-compatible APIs deliver the terminating usage payload
    // as a chunk with an empty `choices` array plus a top-level
    // `usage` object. Historically we rejected this shape as
    // malformed; enabling `stream_options.include_usage` now makes
    // it the normal way to receive token counters.
    let payload = r#"{"choices":[],"usage":{"prompt_tokens":10,"completion_tokens":3,"total_tokens":13,"prompt_cache_hit_tokens":8,"prompt_cache_miss_tokens":2}}"#;
    let got = decode_stream_payload(payload).expect("usage-only chunk parses");
    assert_eq!(
        got,
        StreamPayload::Chunk(StreamChunk {
            usage: Some(Usage {
                prompt_tokens: Some(10),
                completion_tokens: Some(3),
                total_tokens: Some(13),
                prompt_cache_hit_tokens: Some(8),
                prompt_cache_miss_tokens: Some(2),
            }),
            ..Default::default()
        })
    );
}

#[test]
fn empty_choices_array_without_usage_yields_empty_chunk() {
    let payload = r#"{"choices":[]}"#;
    let got = decode_stream_payload(payload).expect("empty chunk parses");
    assert_eq!(got, StreamPayload::Chunk(StreamChunk::default()));
}

#[test]
fn done_sentinel_is_recognised() {
    assert_eq!(
        decode_stream_payload("[DONE]").expect("decode"),
        StreamPayload::Done
    );
    assert_eq!(
        decode_stream_payload("  [DONE]\n").expect("decode with whitespace"),
        StreamPayload::Done
    );
}

#[test]
fn empty_tool_calls_array_yields_no_deltas() {
    // Previously covered by `ignores_unknown_top_level_fields`; now
    // we explicitly assert that an empty tool_calls array parses
    // into an empty `tool_call_deltas` vector so callers can rely
    // on the absence of any delta. The top-level `usage` in this
    // payload is also decoded when present.
    let payload = r#"{"choices":[{"index":0,"delta":{"content":"x","tool_calls":[]},"finish_reason":null,"logprobs":null}],"usage":{"total_tokens":1}}"#;
    let got = decode_stream_payload(payload).expect("decode");
    assert_eq!(
        got,
        StreamPayload::Chunk(StreamChunk {
            content_delta: Some("x".to_string()),
            usage: Some(Usage {
                total_tokens: Some(1),
                ..Default::default()
            }),
            ..Default::default()
        })
    );
}

#[test]
fn malformed_json_returns_parse_error() {
    let err = decode_stream_payload("{not json").expect_err("malformed json");
    // The exact message is the parser's concern.
    assert!(!err.message.is_empty());
}

#[test]
fn chat_request_writes_max_tokens_when_set() {
    let request = ChatRequest::new("m", vec![ChatMessage::User("hi".to_string())]);
    assert!(!request.to_json_string().contains("max_tokens"));
    let json = request.with_max_tokens(Some(77)).to_json_string();
    assert!(json.ends_with(",\"max_tokens\":77}"), "unexpected: {json}");
}
