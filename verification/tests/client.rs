use sentia::client::{
    after_connect_failure, check_router_socket, consented, control_payload, failure_kind,
    make_request, parse_args, parse_category, parse_policy, question_from_stdin, render_frame,
    ClientCommand, ConnectDecision, ExchangeState, ExchangeStep, FailureKind, OutputMode,
    ParsedArgs, PrivacyCategory, RequestBuildError, RequestIds, Shown,
};
use sentia::protocol::bounded::BoundedString;
use sentia::protocol::errors::{ContractError, ContractErrorCode};
use sentia::protocol::router::{
    DataSensitivity, RequestStatus, ResultPayload, RouterCapability, RouterResult, RoutingPolicy,
};
use sentia::protocol::socket::{
    CancelReason, CancelRequest, EventPayload, JsonlFrame, StreamEvent, ToolPhase,
};
use sentia::protocol::tools::ToolName;

fn args(v: &[&str]) -> Vec<String> {
    v.iter().map(|s| s.to_string()).collect()
}

fn command(v: &[&str]) -> ClientCommand {
    match parse_args(&args(v)).unwrap() {
        ParsedArgs::Options(o) => o.command,
        ParsedArgs::ReadQuestion(_) => panic!("options expected"),
    }
}

#[test]
fn client_arguments() {
    assert_eq!(parse_args(&args(&["--json"])).unwrap(), ParsedArgs::ReadQuestion(OutputMode::Json));
    assert_eq!(command(&["status"]), ClientCommand::Status);
    assert_eq!(command(&["settings"]), ClientCommand::SettingsGet);
    assert_eq!(
        command(&["settings", "policy", "local_only"]),
        ClientCommand::SettingsPolicy(RoutingPolicy::LocalOnly)
    );
    assert_eq!(command(&["settings", "provider", "none"]), ClientCommand::SettingsProvider(None));
    assert_eq!(
        command(&["settings", "privacy", "journal", "remote"]),
        ClientCommand::SettingsPrivacy(PrivacyCategory::Journal, true)
    );
    assert_eq!(
        parse_args(&args(&["settings", "privacy", "journal", "maybe"])).unwrap_err(),
        "privacy scope must be local or remote"
    );
    assert_eq!(
        command(&["ask-remote", "openai", "why", "is", "it"]),
        ClientCommand::AskRemote { provider: "openai".to_owned(), question: "why is it".to_owned() }
    );
    assert_eq!(
        command(&["what", "--policy", "REMOTE_PREFERRED", "is", "--json", "up"]),
        ClientCommand::Chat {
            question: "what is up".to_owned(),
            policy: Some(RoutingPolicy::RemotePreferred),
            provider: None,
        }
    );
    assert_eq!(command(&["status", "now"]), ClientCommand::Chat {
        question: "status now".to_owned(),
        policy: None,
        provider: None,
    });
    assert_eq!(parse_args(&args(&["-x"])).unwrap_err(), "unknown option: -x");
    assert_eq!(parse_args(&args(&["--policy"])).unwrap_err(), "--policy requires a value");
    assert_eq!(parse_args(&args(&["--provider", "x"])).unwrap_err(), "a question is required");
    assert!(parse_args(&args(&["--consent-token", "t"])).is_err());
}

#[test]
fn client_names_and_decisions() {
    assert_eq!(parse_policy("Ask_Before_Remote").unwrap(), RoutingPolicy::AskBeforeRemote);
    assert!(parse_policy("sometimes").is_err());
    assert_eq!(parse_category("ip_address").unwrap(), PrivacyCategory::IpAddress);
    assert!(parse_category("IP_ADDRESS").is_err());
    assert_eq!(question_from_stdin(OutputMode::Human, "  \n".to_owned()).command, ClientCommand::Help);
    assert!(consented(" yes\n"));
    assert!(!consented("y"));
    assert!(check_router_socket(true, 1000, 1000, 0o140600).is_ok());
    assert!(check_router_socket(true, 1000, 1000, 0o140660).is_err());
    assert_eq!(after_connect_failure(true, false), ConnectDecision::Retry);
    assert_eq!(after_connect_failure(false, false), ConnectDecision::Fail);
    assert_eq!(failure_kind(ContractErrorCode::PolicyDenied), FailureKind::PermissionDenied);
    assert_eq!(failure_kind(ContractErrorCode::Internal), FailureKind::InvalidData);
}

fn ids(request: &str, frame: &str) -> RequestIds {
    RequestIds {
        request_id: request.to_owned(),
        stream_id: "stream-1".to_owned(),
        session_id: "session-1".to_owned(),
        frame_id: frame.to_owned(),
    }
}

fn chat(
    policy: RoutingPolicy,
    provider: Option<&str>,
    request: &str,
    frame: &str,
) -> Result<JsonlFrame, RequestBuildError> {
    make_request(
        RouterCapability::Inference,
        policy,
        provider.map(str::to_owned),
        None,
        "application/vnd.sentia.chat+json",
        "{\"question\":\"héllo\"}".to_owned(),
        ids(request, frame),
        1234,
    )
}

#[test]
fn requests_carry_the_ids_provenance_and_content_length() {
    let frame = chat(RoutingPolicy::LocalOnly, Some("openai"), "request-1", "frame-1").unwrap();
    match frame {
        JsonlFrame::Request { version, frame_id, stream_id, request } => {
            assert_eq!(version, "sentia.v1");
            assert_eq!(frame_id.as_str(), "frame-1");
            assert_eq!(stream_id.as_str(), "stream-1");
            assert_eq!(request.version.as_str(), "sentia.v1");
            assert_eq!(request.request_id.as_str(), "request-1");
            assert_eq!(request.session_id.as_str(), "session-1");
            assert_eq!(request.created_at_ms, 1234);
            assert_eq!(request.policy, RoutingPolicy::LocalOnly);
            assert_eq!(request.provider_id.as_ref().map(|p| p.as_str()), Some("openai"));
            assert_eq!(request.provenance.origin_label.as_str(), "ai-cli");
            assert_eq!(request.provenance.sensitivity, DataSensitivity::Internal);
            assert_eq!(request.payload.mime_type.as_str(), "application/vnd.sentia.chat+json");
            // "é" takes two bytes.
            assert_eq!(request.payload.byte_count, 21);
            assert!(!request.payload.truncated);
            assert!(request.consent_token.is_none());
        }
        _ => panic!("a request frame is expected"),
    }
}

#[test]
fn asking_before_remote_needs_a_consent_token() {
    match chat(RoutingPolicy::AskBeforeRemote, None, "request-2", "frame-2") {
        Err(RequestBuildError::Invalid(e)) => assert_eq!(e.code, ContractErrorCode::PolicyDenied),
        _ => panic!("policy denial expected"),
    }
}

#[test]
fn overlong_ids_are_refused_with_their_bound() {
    let long = "r".repeat(65);
    match chat(RoutingPolicy::LocalOnly, None, &long, "frame-3") {
        Err(RequestBuildError::TooLong(e)) => {
            assert_eq!(e.max, 64);
            assert_eq!(e.actual, 65);
        }
        _ => panic!("too long expected"),
    }
    let provider = "p".repeat(49);
    match chat(RoutingPolicy::LocalOnly, Some(&provider), "request-3", "frame-3") {
        Err(RequestBuildError::TooLong(e)) => assert_eq!((e.max, e.actual), (48, 49)),
        _ => panic!("too long expected"),
    }
    // The frame id is checked after the contract: a policy denial wins.
    match chat(RoutingPolicy::AskBeforeRemote, None, "request-3", &long) {
        Err(RequestBuildError::Invalid(_)) => {}
        _ => panic!("policy denial expected"),
    }
    match chat(RoutingPolicy::LocalOnly, None, "request-3", &long) {
        Err(RequestBuildError::TooLong(e)) => assert_eq!((e.max, e.actual), (64, 65)),
        _ => panic!("too long expected"),
    }
}

#[test]
fn only_request_frames_start_an_exchange() {
    let frame = chat(RoutingPolicy::LocalOnly, None, "request-4", "frame-4").unwrap();
    let state = ExchangeState::for_request(&frame).unwrap();
    assert_eq!(state.request_id, "request-4");
    assert_eq!(state.stream_id, "stream-1");
    assert!(state.failed.is_none());

    let cancel = JsonlFrame::Cancel {
        version: "sentia.v1".to_owned(),
        frame_id: BoundedString::new("frame-5".to_owned()).unwrap(),
        stream_id: BoundedString::new("stream-1".to_owned()).unwrap(),
        cancel: CancelRequest {
            cancel_id: BoundedString::new("cancel-1".to_owned()).unwrap(),
            request_id: BoundedString::new("request-4".to_owned()).unwrap(),
            reason: CancelReason::UserRequested,
            requested_at_ms: 5,
        },
    };
    assert_eq!(
        ExchangeState::for_request(&cancel).err().as_deref(),
        Some("client can only initiate request frames")
    );
}

fn b<const N: usize>(s: &str) -> BoundedString<N> {
    BoundedString::new(s.to_owned()).unwrap()
}

fn event(payload: EventPayload) -> JsonlFrame {
    JsonlFrame::Event {
        version: "sentia.v1".to_owned(),
        frame_id: b("frame-e"),
        stream_id: b("stream-1"),
        event: StreamEvent {
            event_id: b("event-1"),
            request_id: b("request-1"),
            sequence: 1,
            status: RequestStatus::RunningLocal,
            emitted_at_ms: 9,
            payload,
        },
    }
}

fn result_frame(stream: &str, request: &str, mime: &str, content: &str) -> JsonlFrame {
    JsonlFrame::Result {
        version: "sentia.v1".to_owned(),
        frame_id: b("frame-r"),
        stream_id: b(stream),
        result: RouterResult {
            version: b("sentia.v1"),
            request_id: b(request),
            status: RequestStatus::Completed,
            provider_status: None,
            payload: Some(ResultPayload {
                mime_type: b(mime),
                content: b(content),
                byte_count: content.len() as u32,
                truncated: false,
            }),
            error: None,
            metrics: vec![],
        },
    }
}

fn error_frame(stream: &str, message: &str) -> JsonlFrame {
    JsonlFrame::Error {
        version: "sentia.v1".to_owned(),
        frame_id: b("frame-x"),
        stream_id: b(stream),
        error: ContractError::new(ContractErrorCode::Internal, message.to_owned(), false),
    }
}

#[test]
fn frames_are_shown_as_text_notes_or_control_payloads() {
    assert_eq!(
        render_frame(&event(EventPayload::OutputDelta { delta: b("Hel"), cumulative_bytes: 3 })),
        Shown::Out("Hel".to_owned())
    );
    assert_eq!(
        render_frame(&event(EventPayload::ToolProgress {
            tool: ToolName::AptSearch,
            phase: ToolPhase::Running,
            detail: Some("vim".to_owned()),
        })),
        Shown::Note("[tool apt_search: Running: vim]".to_owned())
    );
    assert_eq!(
        render_frame(&event(EventPayload::ToolProgress {
            tool: ToolName::AptSearch,
            phase: ToolPhase::Queued,
            detail: None,
        })),
        Shown::Note("[tool apt_search: Queued]".to_owned())
    );
    assert_eq!(render_frame(&error_frame("stream-1", "boom")), Shown::Note("error: boom".to_owned()));
    assert_eq!(
        render_frame(&result_frame("stream-1", "request-1", "application/json", "{}")),
        Shown::Control("{}".to_owned())
    );
    assert_eq!(
        render_frame(&result_frame("stream-1", "request-1", "text/plain", "hi")),
        Shown::Nothing
    );
}

#[test]
fn an_exchange_ends_at_its_own_result_and_keeps_its_failure() {
    let mut state = ExchangeState::new("request-1".to_owned(), "stream-1".to_owned());
    assert_eq!(state.on_frame(&error_frame("stream-9", "other")), ExchangeStep::Continue);
    assert!(state.failed.is_none());
    assert_eq!(state.on_frame(&error_frame("stream-1", "denied")), ExchangeStep::Continue);
    assert_eq!(
        state.on_frame(&result_frame("stream-1", "request-2", "text/plain", "x")),
        ExchangeStep::Continue
    );
    assert_eq!(
        state.on_frame(&result_frame("stream-1", "request-1", "text/plain", "x")),
        ExchangeStep::Done(Some("denied".to_owned()))
    );
}

#[test]
fn the_last_control_payload_is_found_from_the_end() {
    let frames = vec![
        result_frame("stream-1", "request-1", "application/json", "first"),
        result_frame("stream-1", "request-1", "application/json", "second"),
        result_frame("stream-1", "request-1", "text/plain", "plain"),
    ];
    assert_eq!(control_payload(&frames), Some("second".to_owned()));
    assert_eq!(control_payload(&vec![]), None);
}
