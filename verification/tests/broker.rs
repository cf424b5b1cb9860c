use sentia::broker::config::BrokerConfig;
use sentia::broker::llama::{
    check_backend_model, health_from_reply, http_error, parse_chunk_size, parse_non_stream_response,
    plan_chunk, plan_length_read, take_sse_event, BodyMode, ChunkPlan, HttpHead, SseOutcome,
    SseState,
};
use sentia::broker::protocol::{BrokerEvent, BrokerMessage, BrokerRequest, BrokerTool};
use sentia::broker::queue::{InferenceQueue, Phase, QueueError};
use sentia::broker::server::{
    check_envelope, validate_chat, Connection, ConnectionAction, FrameReader, FrameStep,
};
use sentia::protocol::provider::{ProviderErrorCode, ProviderHealth};

#[test]
fn parses_fragmented_sse_boundaries() {
    let mut buffer = b"data: {\"a\":1}\n\ndata: x\r\n\r\nremaining".to_vec();
    assert_eq!(take_sse_event(&mut buffer).unwrap(), b"data: {\"a\":1}".to_vec());
    assert_eq!(take_sse_event(&mut buffer).unwrap(), b"data: x".to_vec());
    assert_eq!(buffer, b"remaining");
}

#[test]
fn take_sse_event_prefers_the_earlier_separator() {
    let mut buffer = b"a\r\n\r\nb\n\nc".to_vec();
    assert_eq!(take_sse_event(&mut buffer).unwrap(), b"a".to_vec());
    assert_eq!(take_sse_event(&mut buffer).unwrap(), b"b".to_vec());
    assert!(take_sse_event(&mut buffer).is_none());
    assert_eq!(buffer, b"c".to_vec());
}

#[test]
fn reasoning_only_response_is_an_error_not_a_blank_answer() {
    let body = br#"{"choices":[{"message":{"content":"","reasoning_content":"the user wants lsof"},"finish_reason":"length"}]}"#;
    let answer = parse_non_stream_response(body);
    let error = answer.result.expect_err("a response with no answer must fail");
    assert_eq!(error.kind, ProviderErrorCode::MalformedResponse);
    assert!(error.message.contains("no answer"), "{}", error.message);
    assert!(answer.delta.is_none());
}

#[test]
fn whole_answer_passes_text_and_tool_calls() {
    let body = br#"{"choices":[{"message":{"content":"hi","tool_calls":[{"id":"c1","function":{"name":"health","arguments":"{}"}}]},"finish_reason":"tool_calls"}]}"#;
    let answer = parse_non_stream_response(body);
    assert_eq!(answer.delta.as_deref(), Some("hi"));
    let out = answer.result.unwrap();
    assert_eq!(out.finish_reason, "tool_calls");
    assert_eq!(out.tool_calls.len(), 1);
    assert_eq!(out.tool_calls[0].name, "health");
    let bad = br#"{"choices":[{"message":{"content":"x","tool_calls":[{"id":"c1","function":{"name":"h","arguments":"{"}}]}}]}"#;
    let answer = parse_non_stream_response(bad);
    assert_eq!(answer.result.unwrap_err().message, "local inference returned an invalid tool call");
    let err = parse_non_stream_response(br#"{"error":{"message":"model missing"}}"#);
    let e = err.result.unwrap_err();
    assert_eq!(e.kind, ProviderErrorCode::ProcessFailure);
    assert_eq!(e.message, "model missing");
    assert!(e.retryable);
    let none = parse_non_stream_response(b"{\"choices\":[]}");
    assert_eq!(none.result.unwrap_err().message, "local inference response omitted choices");
    let bad_json = parse_non_stream_response(b"not json");
    assert_eq!(bad_json.result.unwrap_err().message, "local inference returned malformed JSON");
}

#[test]
fn streamed_answer_assembles_deltas_and_tool_calls() {
    let mut sse = SseState::new();
    let first = sse.push_chunk(b"data: {\"choices\":[{\"delta\":{\"content\":\"hel\"}}]}\n\ndata: {\"choi");
    assert_eq!(first.deltas, vec!["hel".to_owned()]);
    assert!(matches!(first.outcome, SseOutcome::Continue));
    let second = sse.push_chunk(b"ces\":[{\"delta\":{\"content\":\"lo\",\"tool_calls\":[{\"index\":1,\"id\":\"b\",\"function\":{\"name\":\"n2\",\"arguments\":\"{}\"}},{\"index\":0,\"id\":\"a\",\"function\":{\"name\":\"n1\",\"arguments\":\"{\\\"x\\\"\"}}]},\"finish_reason\":null}]}\n\n");
    assert_eq!(second.deltas, vec!["lo".to_owned()]);
    let third = sse.push_chunk(b"data: {\"choices\":[{\"delta\":{\"tool_calls\":[{\"index\":0,\"function\":{\"arguments\":\":1}\"}}]},\"finish_reason\":\"tool_calls\"}]}\n\ndata: [DONE]\n\n");
    match third.outcome {
        SseOutcome::Done(out) => {
            assert_eq!(out.finish_reason, "tool_calls");
            assert_eq!(out.tool_calls.len(), 2);
            assert_eq!(out.tool_calls[0].id, "a");
            assert_eq!(out.tool_calls[0].arguments, "{\"x\":1}");
            assert_eq!(out.tool_calls[1].name, "n2");
        }
        _ => panic!("stream should end at [DONE]"),
    }
}

#[test]
fn stream_that_ends_without_finish_reason_fails() {
    let mut sse = SseState::new();
    let p = sse.push_chunk(b"data: {\"choices\":[{\"delta\":{\"content\":\"x\"}}]}\n\n");
    assert_eq!(p.deltas.len(), 1);
    let end = sse.end_stream();
    match end.outcome {
        SseOutcome::Failed(e) => {
            assert_eq!(e.message, "local inference stream ended before a terminal event");
            assert!(e.retryable);
        }
        _ => panic!("must fail"),
    }
    let mut ok = SseState::new();
    ok.push_chunk(b"data: {\"choices\":[{\"delta\":{\"content\":\"y\"},\"finish_reason\":\"stop\"}]}");
    let end = ok.end_stream();
    assert_eq!(end.deltas, vec!["y".to_owned()]);
    assert!(matches!(end.outcome, SseOutcome::Done(ref o) if o.finish_reason == "stop"));
}

#[test]
fn oversized_stream_buffer_is_refused() {
    let mut sse = SseState::new();
    let big = vec![b'a'; 1_048_577];
    let p = sse.push_chunk(&big);
    match p.outcome {
        SseOutcome::Failed(e) => assert_eq!(e.message, "local inference SSE event exceeded size limit"),
        _ => panic!("must fail"),
    }
}

#[test]
fn non_utf8_event_is_an_error() {
    let mut sse = SseState::new();
    let p = sse.push_chunk(b"data: \xff\n\n");
    match p.outcome {
        SseOutcome::Failed(e) => assert_eq!(e.message, "local inference returned non-UTF-8 SSE"),
        _ => panic!("must fail"),
    }
}

#[test]
fn http_errors_are_classified_and_bounded() {
    let e = http_error(503, b"{}");
    assert_eq!(e.kind, ProviderErrorCode::ProcessFailure);
    assert_eq!(e.message, "local inference backend returned HTTP 503");
    assert!(e.retryable);
    let long = format!("{{\"error\":{{\"message\":\"{}\"}}}}", "é".repeat(300));
    let e = http_error(401, long.as_bytes());
    assert_eq!(e.kind, ProviderErrorCode::Authentication);
    assert_eq!(e.message.len(), 512);
    assert_eq!(http_error(429, b"").kind, ProviderErrorCode::Quota);
    assert_eq!(http_error(404, b"").kind, ProviderErrorCode::UnsupportedCapability);
    assert_eq!(http_error(302, b"").kind, ProviderErrorCode::MalformedResponse);
}

#[test]
fn health_replies_map_to_states() {
    assert_eq!(health_from_reply(200, "ok").0, ProviderHealth::Healthy);
    assert_eq!(health_from_reply(200, "Loading model").0, ProviderHealth::Starting);
    assert_eq!(health_from_reply(503, "loading").0, ProviderHealth::Starting);
    let (h, d) = health_from_reply(500, "boom");
    assert_eq!(h, ProviderHealth::Unavailable);
    assert_eq!(d, "local inference backend health returned HTTP 500");
}

#[test]
fn http_head_is_read_with_last_header_winning() {
    let lines = vec![
        "Content-Type: text/event-stream".to_owned(),
        "Transfer-Encoding: Chunked".to_owned(),
        "content-length: 5".to_owned(),
        "Content-Length: 7".to_owned(),
    ];
    let head = HttpHead::parse("HTTP/1.1 200 OK", &lines).unwrap();
    assert_eq!(head.status, 200);
    assert!(head.chunked);
    assert_eq!(head.content_length, Some(7));
    assert_eq!(BodyMode::for_head(&head), BodyMode::Chunked);
    assert_eq!(HttpHead::parse("HTTP/2 200", &vec![]).unwrap_err(), "unsupported backend HTTP version");
    assert_eq!(HttpHead::parse("HTTP/1.1 abc", &vec![]).unwrap_err(), "invalid HTTP status line");
    assert_eq!(
        HttpHead::parse("HTTP/1.1 200", &vec!["bad".to_owned()]).unwrap_err(),
        "malformed backend HTTP header"
    );
    assert_eq!(
        HttpHead::parse("HTTP/1.1 200", &vec!["Content-Length: x".to_owned()]).unwrap_err(),
        "invalid HTTP content-length"
    );
}

#[test]
fn chunk_sizes_are_hex_and_bounded() {
    assert_eq!(parse_chunk_size("1a;ext\r\n").unwrap(), 26);
    assert_eq!(parse_chunk_size("+F\r\n").unwrap(), 15);
    assert!(parse_chunk_size("zz\r\n").is_err());
    assert!(parse_chunk_size(&"1".repeat(130)).is_err());
    assert_eq!(plan_chunk(0), ChunkPlan::End);
    assert_eq!(plan_chunk(2_000_000), ChunkPlan::TooLarge);
    assert_eq!(plan_chunk(10), ChunkPlan::Read(10));
    assert_eq!(plan_length_read(10_000), (8192, BodyMode::Length(1808)));
    assert_eq!(plan_length_read(0), (0, BodyMode::Done));
}

#[test]
fn backend_model_cannot_break_the_head() {
    assert!(check_backend_model("sentia-local").is_ok());
    assert!(check_backend_model("a\r\nb").is_err());
}

#[test]
fn enforces_per_user_and_global_bounds() {
    let mut queue = InferenceQueue::new(1, 2, 1);
    let (_first, _) = queue.reserve(1000).unwrap();
    assert!(matches!(queue.reserve(1000), Err(QueueError::UserFull)));
    let (_second, _) = queue.reserve(1001).unwrap();
    assert!(matches!(queue.reserve(1002), Err(QueueError::GlobalFull)));
}

#[test]
fn releasing_a_reservation_frees_its_place() {
    let mut queue = InferenceQueue::new(1, 1, 1);
    let (mut r, position) = queue.reserve(1000).unwrap();
    assert_eq!(position, 1);
    assert!(matches!(queue.reserve(1001), Err(QueueError::GlobalFull)));
    queue.activate(&mut r);
    assert_eq!(r.phase, Phase::Active);
    queue.release(&mut r);
    assert_eq!(r.phase, Phase::Released);
    queue.release(&mut r);
    assert!(queue.reserve(1001).is_ok());
}

#[test]
fn malformed_frames_are_bounded() {
    let mut reader = FrameReader::new(4);
    let (_, step) = reader.feed(b"abcdef\n");
    assert_eq!(step, FrameStep::TooLarge);
}

#[test]
fn frames_are_cut_at_line_ends() {
    let mut reader = FrameReader::new(64);
    let (took, step) = reader.feed(b"{\"a\":1}\r\n{\"b\"");
    assert_eq!(took, 9);
    assert_eq!(step, FrameStep::Frame(b"{\"a\":1}".to_vec()));
    let (took, step) = reader.feed(b"{\"b\"");
    assert_eq!(took, 4);
    assert_eq!(step, FrameStep::NeedMore);
    assert!(reader.at_end().is_err());
    let (_, step) = reader.feed(b":2}\n");
    assert_eq!(step, FrameStep::Frame(b"{\"b\":2}".to_vec()));
    let (_, step) = reader.feed(b"\n");
    assert_eq!(step, FrameStep::NeedMore);
    assert!(reader.at_end().is_ok());
}

fn message(role: &str, content: &str) -> BrokerMessage {
    BrokerMessage {
        role: role.to_owned(),
        content: content.to_owned(),
        name: None,
        tool_call_id: None,
        tool_calls: Vec::new(),
    }
}

#[test]
fn chat_requests_are_bounded() {
    let config = BrokerConfig::default();
    assert!(validate_chat(&config, &vec![message("user", "hi")], &vec![], 16).is_ok());
    assert_eq!(
        validate_chat(&config, &vec![], &vec![], 16).unwrap_err(),
        "message count is outside configured bounds"
    );
    assert_eq!(
        validate_chat(&config, &vec![message("root", "hi")], &vec![], 16).unwrap_err(),
        "messages contain invalid fields"
    );
    assert_eq!(
        validate_chat(&config, &vec![message("user", &"x".repeat(600 * 1024))], &vec![], 16)
            .unwrap_err(),
        "prompt exceeds configured size limit"
    );
    assert_eq!(
        validate_chat(&config, &vec![message("user", "hi")], &vec![], 0).unwrap_err(),
        "max_tokens is outside configured bounds"
    );
    let tool = BrokerTool { name: String::new(), description: String::new(), parameters: "{}".to_owned() };
    assert_eq!(
        validate_chat(&config, &vec![message("user", "hi")], &vec![tool], 16).unwrap_err(),
        "tool definitions are outside configured bounds"
    );
}

#[test]
fn configuration_limits_are_checked() {
    let mut config = BrokerConfig::default();
    assert!(config.validate().is_ok());
    config.max_active = 5;
    assert_eq!(config.validate().unwrap_err(), "local broker configuration limits are invalid");
}

#[test]
fn envelopes_are_checked_before_anything_else() {
    assert!(check_envelope("sentia.v1", "r1").is_none());
    match check_envelope("sentia.v0", "r1") {
        Some(BrokerEvent::Error { request_id, error, .. }) => {
            assert_eq!(request_id, "r1");
            assert_eq!(error.message, "unsupported broker protocol version");
        }
        _ => panic!("version must be refused"),
    }
    match check_envelope("sentia.v1", "") {
        Some(BrokerEvent::Error { request_id, .. }) => assert_eq!(request_id, "unknown"),
        _ => panic!("empty id must be refused"),
    }
}

#[test]
fn connection_admits_chats_once_per_id() {
    let config = BrokerConfig::default();
    let mut queue = InferenceQueue::new(1, 16, 2);
    let mut connection = Connection::new(1000);
    let chat = || BrokerRequest::Chat {
        version: "sentia.v1".to_owned(),
        request_id: "c1".to_owned(),
        messages: vec![message("user", "hi")],
        tools: vec![],
        max_tokens: 8,
    };
    match connection.on_request(chat(), &config, &mut queue) {
        ConnectionAction::StartChat { queued, request_id, .. } => {
            assert_eq!(request_id, "c1");
            assert!(matches!(queued, BrokerEvent::Queued { position: 1, .. }));
        }
        _ => panic!("first chat must start"),
    }
    assert!(connection.is_active("c1"));
    match connection.on_request(chat(), &config, &mut queue) {
        ConnectionAction::Reply(BrokerEvent::Error { error, .. }) => {
            assert_eq!(error.message, "request_id is already active on this connection")
        }
        _ => panic!("duplicate must be refused"),
    }
    connection.finish("c1");
    assert!(!connection.is_active("c1"));
    let health = BrokerRequest::Health { version: "sentia.v1".to_owned(), request_id: "h".to_owned() };
    assert!(matches!(
        connection.on_request(health, &config, &mut queue),
        ConnectionAction::CheckHealth { .. }
    ));
}

#[test]
fn byte_by_byte_stream_matches_one_chunk() {
    let stream: &[u8] = b"data: {\"choices\":[{\"delta\":{\"content\":\"a\"}}]}\r\n\r\ndata: {\"choices\":[{\"delta\":{\"content\":\"b\"}}]}\n\ndata: {\"choices\":[{\"delta\":{},\"finish_reason\":\"stop\"}]}\n\ndata: [DONE]\n\n";
    let mut whole = SseState::new();
    let once = whole.push_chunk(stream);
    let mut split = SseState::new();
    let mut deltas: Vec<String> = Vec::new();
    let mut finish: Option<String> = None;
    for b in stream.iter() {
        let p = split.push_chunk(std::slice::from_ref(b));
        deltas.extend(p.deltas);
        match p.outcome {
            SseOutcome::Continue => {}
            SseOutcome::Done(o) => {
                finish = Some(o.finish_reason);
                break;
            }
            SseOutcome::Failed(e) => panic!("{}", e.message),
        }
    }
    assert_eq!(once.deltas, deltas);
    assert_eq!(deltas, vec!["a".to_owned(), "b".to_owned()]);
    match once.outcome {
        SseOutcome::Done(o) => assert_eq!(Some(o.finish_reason), finish),
        _ => panic!("stream should end at [DONE]"),
    }
}

#[test]
fn a_refused_frame_takes_its_bytes_and_keeps_what_was_pending() {
    let mut reader = FrameReader::new(8);
    let (took, step) = reader.feed(b"abc");
    assert_eq!((took, step), (3, FrameStep::NeedMore));
    let (took, step) = reader.feed(b"defghij\nk");
    assert_eq!(took, 8);
    assert_eq!(step, FrameStep::TooLarge);
    // The pending bytes are those from before the refused feed.
    let (_, step) = reader.feed(b"\n");
    assert_eq!(step, FrameStep::Frame(b"abc".to_vec()));
}
