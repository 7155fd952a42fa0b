use memos::sse::{
    classify_sse_line, done_event, event_from_delta, skip_stream_line, SseEvent, SseLine,
    SseStream, StreamDelta, StreamToolCall, ToolCallAccumulator, ToolCallDelta,
};

fn data(line: &str) -> Option<String> {
    match classify_sse_line(line) {
        SseLine::Data(d) => Some(d),
        _ => None,
    }
}

#[test]
fn sse_lines_are_classified() {
    assert!(matches!(classify_sse_line(": comment"), SseLine::Ignored));
    assert!(matches!(classify_sse_line(""), SseLine::Ignored));
    assert!(matches!(classify_sse_line("event: x"), SseLine::Ignored));
    assert!(matches!(classify_sse_line("data: [DONE]"), SseLine::Done));
    assert!(matches!(classify_sse_line("  data:[DONE]  "), SseLine::Done));
    assert_eq!(data("data: {\"a\":1}"), Some("{\"a\":1}".to_string()));
    assert_eq!(data("data:data: x"), Some("x".to_string()));
    assert_eq!(data("data:"), Some(String::new()));
}

#[test]
fn done_event_ends_the_stream() {
    let e = done_event();
    assert_eq!(e.finish_reason.as_deref(), Some("[DONE]"));
    assert!(e.content_delta.is_none());
    assert!(e.tool_call_delta.is_none());
}

#[test]
fn events_from_decoded_chunks() {
    let e = event_from_delta(StreamDelta {
        content: Some("hello".to_string()),
        finish_reason: None,
        tool_call: None,
    });
    assert_eq!(e.content_delta.as_deref(), Some("hello"));
    assert!(e.tool_call_delta.is_none());

    let e = event_from_delta(StreamDelta {
        content: None,
        finish_reason: Some("stop".to_string()),
        tool_call: Some(StreamToolCall {
            index: None,
            id: Some("call_abc".to_string()),
            function_name: Some("list_memos".to_string()),
            arguments: Some(String::new()),
        }),
    });
    let tc = e.tool_call_delta.unwrap();
    assert_eq!(tc.index, 0);
    assert_eq!(tc.id.as_deref(), Some("call_abc"));
    assert_eq!(tc.function_name.as_deref(), Some("list_memos"));
    assert_eq!(e.finish_reason.as_deref(), Some("stop"));

    let e = event_from_delta(StreamDelta {
        content: None,
        finish_reason: None,
        tool_call: Some(StreamToolCall { index: Some(3), id: None, function_name: None, arguments: None }),
    });
    assert!(e.tool_call_delta.is_none());

    let e = event_from_delta(StreamDelta {
        content: None,
        finish_reason: None,
        tool_call: Some(StreamToolCall {
            index: Some((1u64 << 32) + 2),
            id: None,
            function_name: None,
            arguments: Some("{".to_string()),
        }),
    });
    assert_eq!(e.tool_call_delta.unwrap().index, 2);
}

#[test]
fn stream_lines_skipped() {
    assert!(skip_stream_line(""));
    assert!(skip_stream_line(": keep-alive"));
    assert!(!skip_stream_line("data: x"));
}

fn content(text: &str) -> SseEvent {
    SseEvent { content_delta: Some(text.to_string()), tool_call_delta: None, finish_reason: None }
}

fn piece(index: u32, id: Option<&str>, name: Option<&str>, args: Option<&str>) -> SseEvent {
    SseEvent {
        content_delta: None,
        tool_call_delta: Some(ToolCallDelta {
            index,
            id: id.map(str::to_string),
            function_name: name.map(str::to_string),
            arguments_chunk: args.map(str::to_string),
        }),
        finish_reason: None,
    }
}

#[test]
fn stream_joins_text() {
    let mut s = SseStream::new();
    assert!(!s.apply(&content("Hi")));
    assert!(!s.apply(&content(" there")));
    assert!(s.apply(&done_event()));
    assert_eq!(s.content, "Hi there");
    assert!(s.tool_calls.is_empty());
}

#[test]
fn stream_joins_tool_call_pieces() {
    let mut s = SseStream::new();
    s.apply(&piece(0, Some("call_1"), Some("list_memos"), Some("")));
    s.apply(&piece(0, None, None, Some("{\"query\":")));
    s.apply(&piece(0, None, None, Some("\"Rust\"}")));
    s.apply(&piece(1, Some("call_2"), Some("list_tags"), Some("{}")));
    assert_eq!(s.content, "");
    assert_eq!(s.tool_calls.len(), 2);
    assert_eq!(s.tool_calls[0].index, 0);
    assert_eq!(s.tool_calls[0].id, "call_1");
    assert_eq!(s.tool_calls[0].name, "list_memos");
    assert_eq!(s.tool_calls[0].arguments, "{\"query\":\"Rust\"}");
    assert_eq!(s.tool_calls[1].index, 1);
    assert_eq!(s.tool_calls[1].name, "list_tags");
}

#[test]
fn stream_mixed_content_and_tool_call() {
    let mut s = SseStream::new();
    s.apply(&content("让我查一下"));
    s.apply(&piece(0, Some("call_1"), Some("list_tags"), Some("{}")));
    let stop = s.apply(&SseEvent {
        content_delta: None,
        tool_call_delta: None,
        finish_reason: Some("tool_calls".to_string()),
    });
    assert!(!stop);
    assert_eq!(s.content, "让我查一下");
    assert_eq!(s.tool_calls.len(), 1);
    assert_eq!(s.tool_calls[0].name, "list_tags");
}

#[test]
fn tool_call_default_is_empty() {
    let t = ToolCallAccumulator::default();
    assert_eq!(t.index, 0);
    assert!(t.id.is_empty() && t.name.is_empty() && t.arguments.is_empty());
}

#[test]
fn stream_fills_skipped_tool_call_indices() {
    let mut s = SseStream::new();
    s.apply(&piece(2, Some("call_3"), Some("get_memo"), Some("{\"uid\":")));
    s.apply(&piece(2, None, None, Some("\"a\"}")));
    assert_eq!(s.tool_calls.len(), 3);
    for (i, t) in s.tool_calls.iter().enumerate() {
        assert_eq!(t.index as usize, i);
    }
    assert_eq!(s.tool_calls[0].id, "");
    assert_eq!(s.tool_calls[1].arguments, "");
    assert_eq!(s.tool_calls[2].id, "call_3");
    assert_eq!(s.tool_calls[2].name, "get_memo");
    assert_eq!(s.tool_calls[2].arguments, "{\"uid\":\"a\"}");
}
