use cli_agent::streaming::{
    is_keepalive, BlockStart, Delta, LineSplitter, SseParser, StreamAction, StreamEvent,
    StreamOutput, StreamState, ToolCall, ToolCallAccumulator, assistant_message_from_output,
    execute_tool, tool_result_message,
};
use cli_agent::provider::AnthropicContent;

fn arg(json: &str, key: &str) -> serde_json::Value {
    let v: serde_json::Value = serde_json::from_str(json).unwrap();
    v[key].clone()
}

// -- LineSplitter tests --

#[test]
fn test_line_splitter_complete_lines() {
    let mut splitter = LineSplitter::new();
    let lines = splitter.feed(b"hello\nworld\n");
    assert_eq!(lines, vec!["hello", "world"]);
}

#[test]
fn test_line_splitter_partial_line() {
    let mut splitter = LineSplitter::new();
    let lines1 = splitter.feed(b"hel");
    assert!(lines1.is_empty());
    let lines2 = splitter.feed(b"lo\n");
    assert_eq!(lines2, vec!["hello"]);
}

#[test]
fn test_line_splitter_crlf() {
    let mut splitter = LineSplitter::new();
    let lines = splitter.feed(b"line one\r\nline two\r\n");
    assert_eq!(lines, vec!["line one", "line two"]);
}

#[test]
fn test_line_splitter_split_across_chunks() {
    let mut splitter = LineSplitter::new();
    let l1 = splitter.feed(b"event: content_block_delta\ndata: {\"partial");
    assert_eq!(l1, vec!["event: content_block_delta"]);
    let l2 = splitter.feed(b"_data\"}\n\n");
    assert_eq!(l2, vec!["data: {\"partial_data\"}", ""]);
}

// -- SseParser tests --

#[test]
fn test_sse_parser_simple_event() {
    let mut parser = SseParser::new();
    assert!(parser.feed_line("event: message_stop").is_none());
    assert!(parser
        .feed_line("data: {\"type\":\"message_stop\"}")
        .is_none());
    let event = parser.feed_line("").expect("should dispatch");
    assert_eq!(event.event_type, "message_stop");
    assert_eq!(event.data, "{\"type\":\"message_stop\"}");
}

#[test]
fn test_sse_parser_comment_ignored() {
    let mut parser = SseParser::new();
    assert!(parser.feed_line(": keepalive ping").is_none());
    assert!(parser.feed_line("").is_none()); // No event to dispatch
}

#[test]
fn test_sse_parser_multi_line_data() {
    let mut parser = SseParser::new();
    parser.feed_line("data: line one");
    parser.feed_line("data: line two");
    let event = parser.feed_line("").expect("should dispatch");
    assert_eq!(event.data, "line one\nline two");
}

// -- ToolCallAccumulator tests --

#[test]
fn test_tool_call_assembly() {
    let mut acc = ToolCallAccumulator::new();
    acc.start_tool_call(1, "toolu_01".into(), "get_weather".into());
    acc.append_json(1, "{\"location\":");
    acc.append_json(1, " \"San Francisco, CA\"}");
    let tc = acc.finish_block(1).unwrap().expect("should produce tool call");
    assert_eq!(tc.name, "get_weather");
    assert_eq!(arg(&tc.arguments, "location"), "San Francisco, CA");
}

#[test]
fn test_tool_call_multiple() {
    let mut acc = ToolCallAccumulator::new();
    acc.start_tool_call(0, "t1".into(), "get_weather".into());
    acc.start_tool_call(1, "t2".into(), "get_weather".into());
    acc.append_json(0, "{\"location\": \"NYC\"}");
    acc.append_json(1, "{\"location\": \"LA\"}");
    acc.finish_block(0).unwrap();
    acc.finish_block(1).unwrap();
    let completed = acc.take_completed();
    assert_eq!(completed.len(), 2);
    assert_eq!(arg(&completed[0].arguments, "location"), "NYC");
    assert_eq!(arg(&completed[1].arguments, "location"), "LA");
}

#[test]
fn test_tool_call_invalid_json() {
    let mut acc = ToolCallAccumulator::new();
    acc.start_tool_call(0, "t1".into(), "bad_tool".into());
    acc.append_json(0, "{not valid json");
    assert!(acc.finish_block(0).is_err());
}

#[test]
fn test_tool_call_non_tool_block_ignored() {
    let mut acc = ToolCallAccumulator::new();
    let result = acc.finish_block(99).unwrap();
    assert!(result.is_none());
}

// -- Further cases --

#[test]
fn line_splitter_chunking_does_not_matter() {
    let text = "a\r\nbb\n\nccc\nd";
    let mut whole = LineSplitter::new();
    let all = whole.feed(text.as_bytes());
    for cut in 0..=text.len() {
        let mut s = LineSplitter::new();
        let mut got = s.feed(text[..cut].as_bytes());
        got.extend(s.feed(text[cut..].as_bytes()));
        assert_eq!(got, all);
    }
    assert_eq!(all, vec!["a", "bb", "", "ccc"]);
}

#[test]
fn sse_parser_default_type_and_field_forms() {
    let mut parser = SseParser::new();
    assert!(parser.feed_line("data:no-space").is_none());
    assert!(parser.feed_line("id: 7").is_none());
    assert!(parser.feed_line("data").is_none());
    let ev = parser.feed_line("").unwrap();
    assert_eq!(ev.event_type, "message");
    assert_eq!(ev.data, "no-space\n");
    assert!(parser.dispatch().is_none());
}

#[test]
fn stream_state_text_and_tool_calls() {
    let mut st = StreamState::new();
    let a = st.apply(StreamEvent::MessageStart { id: "msg_1".into(), model: "m".into(), input_tokens: 12 });
    assert_eq!(a, StreamAction::Log("[model: m, id: msg_1, input_tokens: 12]".into()));
    assert_eq!(st.apply(StreamEvent::ContentBlockStart { index: 0, content_block: BlockStart::Text { text: String::new() } }), StreamAction::Nothing);
    assert_eq!(st.apply(StreamEvent::ContentBlockDelta { index: 0, delta: Delta::TextDelta { text: "Hello".into() } }), StreamAction::Print("Hello".into()));
    st.apply(StreamEvent::ContentBlockDelta { index: 0, delta: Delta::TextDelta { text: " world".into() } });
    assert_eq!(st.apply(StreamEvent::ContentBlockStop { index: 0 }), StreamAction::Nothing);
    assert_eq!(st.apply(StreamEvent::ContentBlockStart { index: 1, content_block: BlockStart::ToolUse { id: "t".into(), name: "get_weather".into() } }), StreamAction::Log("\n[Tool call starting: get_weather]".into()));
    st.apply(StreamEvent::ContentBlockDelta { index: 1, delta: Delta::InputJsonDelta { partial_json: "{\"location\": ".into() } });
    st.apply(StreamEvent::ContentBlockDelta { index: 1, delta: Delta::InputJsonDelta { partial_json: "\"SF\"}".into() } });
    assert_eq!(st.apply(StreamEvent::ContentBlockStop { index: 1 }), StreamAction::Log("\n[Tool call complete: get_weather({\"location\":\"SF\"})]".into()));
    assert_eq!(st.apply(StreamEvent::MessageDelta { stop_reason: Some("tool_use".into()), output_tokens: 9 }), StreamAction::Nothing);
    assert_eq!(st.apply(StreamEvent::MessageStop), StreamAction::PrintLine);
    assert_eq!(st.apply(StreamEvent::Ping), StreamAction::Nothing);
    let out = st.finish();
    assert_eq!(out.text, "Hello world");
    assert_eq!(out.tool_calls.len(), 1);
    assert_eq!(out.tool_calls[0].arguments, "{\"location\":\"SF\"}");
    assert_eq!(out.stop_reason.as_deref(), Some("tool_use"));
    assert_eq!(out.input_tokens, 12);
    assert_eq!(out.output_tokens, 9);
}

#[test]
fn stream_state_error_event_fails() {
    let mut st = StreamState::new();
    let a = st.apply(StreamEvent::Error { error_type: "overloaded_error".into(), message: "busy".into() });
    assert_eq!(
        a,
        StreamAction::Fail {
            log: "\n[API error: overloaded_error \u{2014} busy]".into(),
            error: "API error (overloaded_error): busy".into()
        }
    );
    st.apply(StreamEvent::ContentBlockStart { index: 3, content_block: BlockStart::ToolUse { id: "x".into(), name: "bad".into() } });
    st.apply(StreamEvent::ContentBlockDelta { index: 3, delta: Delta::InputJsonDelta { partial_json: "{oops".into() } });
    match st.apply(StreamEvent::ContentBlockStop { index: 3 }) {
        StreamAction::Log(m) => assert!(m.starts_with("\n[Tool call assembly error: Invalid JSON for tool 'bad': ") && m.ends_with(" (received: '{oops')]")),
        other => panic!("unexpected: {other:?}"),
    }
}

#[test]
fn keepalive_events_are_recognized() {
    let mut parser = SseParser::new();
    parser.feed_line("event: ping");
    let ev = parser.feed_line("").unwrap();
    assert!(is_keepalive(&ev));
}

// -- execute_tool --

#[test]
fn execute_tool_reports_weather_for_location() {
    let call = ToolCall {
        id: "t1".to_string(),
        name: "get_weather".to_string(),
        arguments: r#"{"location":"Paris"}"#.to_string(),
    };
    assert_eq!(execute_tool(&call), "Weather in Paris: 72°F, sunny");
}

#[test]
fn execute_tool_weather_without_location() {
    let call = ToolCall {
        id: "t2".to_string(),
        name: "get_weather".to_string(),
        arguments: "{}".to_string(),
    };
    assert_eq!(execute_tool(&call), "Weather in unknown: 72°F, sunny");
}

#[test]
fn execute_tool_echoes_other_calls() {
    let call = ToolCall {
        id: "t3".to_string(),
        name: "search".to_string(),
        arguments: r#"{"q":"x"}"#.to_string(),
    };
    assert_eq!(execute_tool(&call), r#"Tool 'search' executed with args: {"q":"x"}"#);
}

// -- conversation messages from a stream --

fn output(text: &str, calls: Vec<ToolCall>) -> StreamOutput {
    StreamOutput {
        text: text.to_string(),
        tool_calls: calls,
        stop_reason: Some("tool_use".to_string()),
        input_tokens: 1,
        output_tokens: 2,
    }
}

#[test]
fn assistant_message_holds_text_then_tool_uses() {
    let call = ToolCall {
        id: "toolu_1".to_string(),
        name: "get_weather".to_string(),
        arguments: r#"{"location":"NYC"}"#.to_string(),
    };
    let m = assistant_message_from_output(&output("Let me check.", vec![call]));
    assert_eq!(m.role, "assistant");
    assert_eq!(m.content.len(), 2);
    match &m.content[0] {
        AnthropicContent::Text { text } => assert_eq!(text, "Let me check."),
        other => panic!("unexpected: {:?}", other),
    }
    match &m.content[1] {
        AnthropicContent::ToolUse { id, name, input } => {
            assert_eq!(id, "toolu_1");
            assert_eq!(name, "get_weather");
            assert_eq!(input, r#"{"location":"NYC"}"#);
        }
        other => panic!("unexpected: {:?}", other),
    }
}

#[test]
fn assistant_message_skips_empty_text() {
    let m = assistant_message_from_output(&output("", vec![]));
    assert_eq!(m.role, "assistant");
    assert!(m.content.is_empty());
}

#[test]
fn tool_result_message_is_a_user_message() {
    let m = tool_result_message("toolu_9", "sunny");
    assert_eq!(m.role, "user");
    assert_eq!(m.content.len(), 1);
    match &m.content[0] {
        AnthropicContent::ToolResult { tool_use_id, content, is_error } => {
            assert_eq!(tool_use_id, "toolu_9");
            assert_eq!(content, "sunny");
            assert_eq!(*is_error, None);
        }
        other => panic!("unexpected: {:?}", other),
    }
}

// -- event payloads decoded through JSON values --

/// Decodes an event's JSON payload into the library's event, the way the
/// program around the library does with its wire types.
fn decode(data: &str) -> Option<StreamEvent> {
    let v: serde_json::Value = serde_json::from_str(data).ok()?;
    let text = |x: &serde_json::Value| x.as_str().map(|s| s.to_string());
    Some(match v["type"].as_str()? {
        "message_start" => StreamEvent::MessageStart {
            id: text(&v["message"]["id"])?,
            model: text(&v["message"]["model"])?,
            input_tokens: v["message"]["usage"]["input_tokens"].as_u64()? as u32,
        },
        "content_block_start" => StreamEvent::ContentBlockStart {
            index: v["index"].as_u64()? as usize,
            content_block: match v["content_block"]["type"].as_str()? {
                "text" => BlockStart::Text { text: text(&v["content_block"]["text"])? },
                "tool_use" => BlockStart::ToolUse {
                    id: text(&v["content_block"]["id"])?,
                    name: text(&v["content_block"]["name"])?,
                },
                _ => return None,
            },
        },
        "content_block_delta" => StreamEvent::ContentBlockDelta {
            index: v["index"].as_u64()? as usize,
            delta: match v["delta"]["type"].as_str()? {
                "text_delta" => Delta::TextDelta { text: text(&v["delta"]["text"])? },
                "input_json_delta" => Delta::InputJsonDelta { partial_json: text(&v["delta"]["partial_json"])? },
                _ => return None,
            },
        },
        "content_block_stop" => StreamEvent::ContentBlockStop { index: v["index"].as_u64()? as usize },
        "message_delta" => StreamEvent::MessageDelta {
            stop_reason: text(&v["delta"]["stop_reason"]),
            output_tokens: v["usage"]["output_tokens"].as_u64()? as u32,
        },
        "message_stop" => StreamEvent::MessageStop,
        "ping" => StreamEvent::Ping,
        _ => return None,
    })
}

#[test]
fn test_sse_parser_text_delta() {
    let mut parser = SseParser::new();
    parser.feed_line("event: content_block_delta");
    parser.feed_line(
        r#"data: {"type":"content_block_delta","index":0,"delta":{"type":"text_delta","text":"Hello"}}"#,
    );
    let event = parser.feed_line("").expect("should dispatch");
    assert_eq!(event.event_type, "content_block_delta");

    let stream_event = decode(&event.data).expect("should parse");
    match stream_event {
        StreamEvent::ContentBlockDelta { index, delta: Delta::TextDelta { text } } => {
            assert_eq!(index, 0);
            assert_eq!(text, "Hello");
        }
        other => panic!("unexpected: {:?}", other),
    }
}

#[test]
fn test_full_pipeline_text_stream() {
    let raw_sse: String = [
        "event: message_start\n",
        "data: {\"type\":\"message_start\",\"message\":{\"id\":\"msg_01\",\"model\":\"sonnet-4-20250514\",\"role\":\"assistant\",\"content\":[],\"usage\":{\"input_tokens\":10}}}\n",
        "\n",
        "event: content_block_start\n",
        "data: {\"type\":\"content_block_start\",\"index\":0,\"content_block\":{\"type\":\"text\",\"text\":\"\"}}\n",
        "\n",
        "event: content_block_delta\n",
        "data: {\"type\":\"content_block_delta\",\"index\":0,\"delta\":{\"type\":\"text_delta\",\"text\":\"Hello\"}}\n",
        "\n",
        "event: content_block_delta\n",
        "data: {\"type\":\"content_block_delta\",\"index\":0,\"delta\":{\"type\":\"text_delta\",\"text\":\" world\"}}\n",
        "\n",
        "event: content_block_stop\n",
        "data: {\"type\":\"content_block_stop\",\"index\":0}\n",
        "\n",
        "event: message_delta\n",
        "data: {\"type\":\"message_delta\",\"delta\":{\"stop_reason\":\"end_turn\"},\"usage\":{\"output_tokens\":5}}\n",
        "\n",
        "event: message_stop\n",
        "data: {\"type\":\"message_stop\"}\n",
        "\n",
    ]
    .concat();

    let mut splitter = LineSplitter::new();
    let mut parser = SseParser::new();
    let mut full_text = String::new();
    let mut stop_reason = None;

    let lines = splitter.feed(raw_sse.as_bytes());
    for line in lines {
        if let Some(sse_event) = parser.feed_line(&line) {
            if is_keepalive(&sse_event) {
                continue;
            }
            let stream_event = decode(&sse_event.data).unwrap();
            match stream_event {
                StreamEvent::ContentBlockDelta { delta: Delta::TextDelta { text }, .. } => {
                    full_text.push_str(&text);
                }
                StreamEvent::MessageDelta { stop_reason: r, .. } => {
                    stop_reason = r;
                }
                _ => {}
            }
        }
    }

    assert_eq!(full_text, "Hello world");
    assert_eq!(stop_reason.as_deref(), Some("end_turn"));
}

#[test]
fn test_full_pipeline_tool_use_stream() {
    let raw_sse: String = [
        "event: message_start\n",
        "data: {\"type\":\"message_start\",\"message\":{\"id\":\"msg_02\",\"model\":\"sonnet-4-20250514\",\"role\":\"assistant\",\"content\":[],\"usage\":{\"input_tokens\":15}}}\n",
        "\n",
        "event: content_block_start\n",
        "data: {\"type\":\"content_block_start\",\"index\":0,\"content_block\":{\"type\":\"tool_use\",\"id\":\"toolu_abc\",\"name\":\"get_weather\"}}\n",
        "\n",
        "event: content_block_delta\n",
        "data: {\"type\":\"content_block_delta\",\"index\":0,\"delta\":{\"type\":\"input_json_delta\",\"partial_json\":\"{\\\"location\\\": \\\"\"}}\n",
        "\n",
        "event: content_block_delta\n",
        "data: {\"type\":\"content_block_delta\",\"index\":0,\"delta\":{\"type\":\"input_json_delta\",\"partial_json\":\"San Francisco, CA\\\"}\"}}\n",
        "\n",
        "event: content_block_stop\n",
        "data: {\"type\":\"content_block_stop\",\"index\":0}\n",
        "\n",
        "event: message_delta\n",
        "data: {\"type\":\"message_delta\",\"delta\":{\"stop_reason\":\"tool_use\"},\"usage\":{\"output_tokens\":20}}\n",
        "\n",
        "event: message_stop\n",
        "data: {\"type\":\"message_stop\"}\n",
        "\n",
    ]
    .concat();

    let mut splitter = LineSplitter::new();
    let mut parser = SseParser::new();
    let mut tool_acc = ToolCallAccumulator::new();
    let mut stop_reason = None;

    let lines = splitter.feed(raw_sse.as_bytes());
    for line in lines {
        if let Some(sse_event) = parser.feed_line(&line) {
            if is_keepalive(&sse_event) {
                continue;
            }
            let stream_event = decode(&sse_event.data).unwrap();
            match stream_event {
                StreamEvent::ContentBlockStart { index, content_block: BlockStart::ToolUse { id, name } } => {
                    tool_acc.start_tool_call(index, id, name);
                }
                StreamEvent::ContentBlockDelta { index, delta: Delta::InputJsonDelta { partial_json } } => {
                    tool_acc.append_json(index, &partial_json);
                }
                StreamEvent::ContentBlockStop { index } => {
                    tool_acc.finish_block(index).unwrap();
                }
                StreamEvent::MessageDelta { stop_reason: r, .. } => {
                    stop_reason = r;
                }
                _ => {}
            }
        }
    }

    let completed = tool_acc.take_completed();
    assert_eq!(completed.len(), 1);
    assert_eq!(completed[0].name, "get_weather");
    assert_eq!(arg(&completed[0].arguments, "location"), "San Francisco, CA");
    assert_eq!(stop_reason.as_deref(), Some("tool_use"));
}

#[test]
fn full_pipeline_through_stream_state() {
    let raw_sse: String = [
        "event: message_start\n",
        "data: {\"type\":\"message_start\",\"message\":{\"id\":\"msg_03\",\"model\":\"m\",\"role\":\"assistant\",\"content\":[],\"usage\":{\"input_tokens\":7}}}\n",
        "\n",
        "event: ping\n",
        "data: {\"type\":\"ping\"}\n",
        "\n",
        "event: content_block_delta\n",
        "data: {\"type\":\"content_block_delta\",\"index\":0,\"delta\":{\"type\":\"text_delta\",\"text\":\"Hi\"}}\n",
        "\n",
        "event: content_block_start\n",
        "data: {\"type\":\"content_block_start\",\"index\":1,\"content_block\":{\"type\":\"tool_use\",\"id\":\"t1\",\"name\":\"get_weather\"}}\n",
        "\n",
        "event: content_block_delta\n",
        "data: {\"type\":\"content_block_delta\",\"index\":1,\"delta\":{\"type\":\"input_json_delta\",\"partial_json\":\"{\\\"location\\\": \\\"Rome\\\"}\"}}\n",
        "\n",
        "event: content_block_stop\n",
        "data: {\"type\":\"content_block_stop\",\"index\":1}\n",
        "\n",
        "event: message_delta\n",
        "data: {\"type\":\"message_delta\",\"delta\":{\"stop_reason\":\"tool_use\"},\"usage\":{\"output_tokens\":9}}\n",
        "\n",
    ]
    .concat();
    let mut splitter = LineSplitter::new();
    let mut parser = SseParser::new();
    let mut state = StreamState::new();
    let mut printed = String::new();
    for line in splitter.feed(raw_sse.as_bytes()) {
        if let Some(e) = parser.feed_line(&line) {
            if is_keepalive(&e) {
                continue;
            }
            if let StreamAction::Print(t) = state.apply(decode(&e.data).unwrap()) {
                printed.push_str(&t);
            }
        }
    }
    let out = state.finish();
    assert_eq!(printed, "Hi");
    assert_eq!(out.text, "Hi");
    assert_eq!(out.stop_reason.as_deref(), Some("tool_use"));
    assert_eq!(out.input_tokens, 7);
    assert_eq!(out.output_tokens, 9);
    assert_eq!(out.tool_calls.len(), 1);
    assert_eq!(execute_tool(&out.tool_calls[0]), "Weather in Rome: 72°F, sunny");
}

#[test]
fn byte_chunks_split_like_the_whole() {
    let a: &[u8] = "h\u{e9}llo\r\nw".as_bytes();
    let b: &[u8] = "orld\n\u{e9}t\u{e9}".as_bytes();
    let mut s1 = LineSplitter::new();
    let mut x = s1.feed(a);
    x.extend(s1.feed(b));
    let mut s2 = LineSplitter::new();
    let whole: Vec<u8> = [a, b].concat();
    let y = s2.feed(&whole);
    assert_eq!(x, y);
    assert_eq!(x, vec!["h\u{e9}llo", "world"]);
    assert_eq!(s1.feed(b"\n"), vec!["\u{e9}t\u{e9}"]);
    assert_eq!(s2.feed(b"\n"), vec!["\u{e9}t\u{e9}"]);
}
