use sentia::providers::adapter::{
    classify_http_error, finish_reason, parse_success, safe_vendor_code, sanitize_code, token_usage,
};
use sentia::providers::error::ProviderErrorKind;
use sentia::providers::integration::JsonLineProviderIntegration;
use sentia::providers::protocol::{
    ApiBilling, ConsumerSubscription, FinishReason, InferenceRequest, Message,
    ProviderCapabilities, ProviderId, Role, WorkerCommand, WorkerEvent, PROTOCOL_VERSION,
};
use sentia::providers::request::{plan_request, AuthHeader};
use sentia::providers::transport::{
    check_declared_length, classify_transport_failure, finish_exchange, is_json_content_type,
    validate_destination, BoundedBody, UrlParts,
};
use sentia::providers::worker::{
    check_command, check_credential, parse_worker_args, WorkerInput, WorkerMode, WorkerState,
};

const SECRET: &str = "fixture-secret-never-emit";

fn valid_request() -> InferenceRequest {
    InferenceRequest {
        request_id: "req-1".to_owned(),
        provider: ProviderId::OpenAi,
        model: "configured-model".to_owned(),
        system: None,
        messages: vec![Message { role: Role::User, content: "hello".to_owned() }],
        max_output_tokens: 64,
        temperature_bits: Some(0.2f32.to_bits()),
        timeout_ms: Some(2_000),
        stream: false,
    }
}

#[test]
fn rejects_endpoint_shaped_model_identifier() {
    let mut request = valid_request();
    request.model = "../../private".to_owned();
    assert_eq!(request.validate().unwrap_err().code, "invalid_model");
}

#[test]
fn rejects_streaming_until_sse_parsers_are_implemented() {
    let mut request = valid_request();
    request.stream = true;
    assert_eq!(request.validate().unwrap_err().kind, ProviderErrorKind::UnsupportedCapability);
}

#[test]
fn capabilities_keep_privacy_and_billing_boundaries_explicit() {
    let capabilities = ProviderCapabilities::for_provider(ProviderId::OpenAi);
    assert!(capabilities.remote_egress);
    assert!(capabilities.requires_router_consent);
    assert!(!capabilities.privacy_classification);
    assert!(!capabilities.tool_calls);
    assert!(!capabilities.live_tested);
    assert!(!capabilities.enabled_by_default);
    assert_eq!(capabilities.billing, ApiBilling::SeparatelyBilledApiUsage);
    assert_eq!(capabilities.consumer_subscription, ConsumerSubscription::NotAnApiBillingEntitlement);
}

#[test]
fn provider_ids_match_profile_names() {
    let names: Vec<&str> = ProviderId::ALL.into_iter().map(|p| p.as_str()).collect();
    assert_eq!(names, ["openai", "anthropic", "gemini", "xai", "deepseek"]);
    for p in ProviderId::ALL {
        assert_eq!(ProviderId::parse(p.as_str()).unwrap(), p);
    }
    assert_eq!(ProviderId::parse("azure").unwrap_err().code, "unknown_provider");
}

#[test]
fn request_validation_reports_the_first_problem() {
    assert!(valid_request().validate().is_ok());
    let mut r = valid_request();
    r.request_id = "bad id".to_owned();
    assert_eq!(r.validate().unwrap_err().code, "invalid_request_id");
    let mut r = valid_request();
    r.messages.clear();
    assert_eq!(r.validate().unwrap_err().code, "invalid_messages");
    let mut r = valid_request();
    r.messages[0].content = String::new();
    assert_eq!(r.validate().unwrap_err().code, "invalid_message_content");
    let mut r = valid_request();
    r.max_output_tokens = 0;
    assert_eq!(r.validate().unwrap_err().code, "invalid_max_output_tokens");
    let mut r = valid_request();
    r.temperature_bits = Some(2.5f32.to_bits());
    assert_eq!(r.validate().unwrap_err().code, "invalid_temperature");
    let mut r = valid_request();
    r.temperature_bits = Some(f32::NAN.to_bits());
    assert_eq!(r.validate().unwrap_err().code, "invalid_temperature");
    let mut r = valid_request();
    r.temperature_bits = Some(2.0f32.to_bits());
    assert!(r.validate().is_ok());
    let mut r = valid_request();
    r.timeout_ms = Some(50);
    assert_eq!(r.validate().unwrap_err().code, "invalid_timeout");
    assert_eq!(valid_request().timeout(), 2_000);
}

fn responses_body(text: &str) -> String {
    format!(
        r#"{{"object":"response","status":"completed","output":[{{"type":"reasoning"}},{{"type":"message","role":"assistant","content":[{{"type":"output_text","text":"{text}"}}]}}],"usage":{{"input_tokens":3,"output_tokens":2,"total_tokens":5}}}}"#
    )
}

#[test]
fn responses_match_reviewed_fixtures() {
    let bodies = [
        (ProviderId::OpenAi, responses_body("fixture response")),
        (ProviderId::Xai, responses_body("fixture response")),
        (
            ProviderId::Anthropic,
            r#"{"type":"message","role":"assistant","content":[{"type":"thinking","thinking":"x"},{"type":"text","text":"fixture response"}],"stop_reason":"end_turn","usage":{"input_tokens":3,"output_tokens":2}}"#.to_owned(),
        ),
        (
            ProviderId::Gemini,
            r#"{"candidates":[{"content":{"parts":[{"text":"hidden","thought":true},{"text":"fixture response"}]},"finishReason":"STOP"}],"usageMetadata":{"promptTokenCount":3,"candidatesTokenCount":2,"totalTokenCount":5}}"#.to_owned(),
        ),
        (
            ProviderId::DeepSeek,
            r#"{"object":"chat.completion","choices":[{"message":{"role":"assistant","content":"fixture response"},"finish_reason":"stop"}],"usage":{"prompt_tokens":3,"completion_tokens":2,"total_tokens":5}}"#.to_owned(),
        ),
    ];
    for (provider, body) in bodies {
        let response = parse_success(provider, body.as_bytes()).unwrap();
        assert_eq!(response.text, "fixture response");
        assert_eq!(response.finish_reason, FinishReason::Stop);
        assert!(!response.incomplete);
        assert!(response.usage.is_some());
    }
}

#[test]
fn rejects_tool_outputs_from_every_contract() {
    let cases: [(ProviderId, &str); 5] = [
        (
            ProviderId::OpenAi,
            r#"{"object":"response","status":"completed","output":[{"type":"function_call","name":"shell","arguments":"{}"}]}"#,
        ),
        (
            ProviderId::Anthropic,
            r#"{"type":"message","role":"assistant","content":[{"type":"tool_use","name":"shell","input":{}}]}"#,
        ),
        (
            ProviderId::Gemini,
            r#"{"candidates":[{"content":{"parts":[{"functionCall":{"name":"shell","args":{}}}]},"finishReason":"STOP"}]}"#,
        ),
        (
            ProviderId::Xai,
            r#"{"object":"response","status":"completed","output":[{"type":"web_search_call","status":"completed"}]}"#,
        ),
        (
            ProviderId::DeepSeek,
            r#"{"object":"chat.completion","choices":[{"message":{"role":"assistant","content":null,"tool_calls":[{"type":"function","function":{"name":"shell","arguments":"{}"}}]},"finish_reason":"tool_calls"}]}"#,
        ),
    ];
    for (provider, body) in cases {
        assert_eq!(
            parse_success(provider, body.as_bytes()).unwrap_err().kind,
            ProviderErrorKind::UnsupportedCapability
        );
    }
}

#[test]
fn responses_contract_details() {
    let incomplete = r#"{"object":"response","status":"incomplete","incomplete_details":{"reason":"max_output_tokens"},"output":[{"type":"message","role":"assistant","content":[{"type":"output_text","text":"part"}]}]}"#;
    let r = parse_success(ProviderId::OpenAi, incomplete.as_bytes()).unwrap();
    assert!(r.incomplete);
    assert_eq!(r.finish_reason, FinishReason::Incomplete);
    assert!(r.usage.is_none());
    let refusal = r#"{"object":"response","status":"completed","output":[{"type":"message","role":"assistant","content":[{"type":"refusal","refusal":"no"}]}]}"#;
    let r = parse_success(ProviderId::OpenAi, refusal.as_bytes()).unwrap();
    assert_eq!(r.finish_reason, FinishReason::Refusal);
    assert_eq!(r.text, "no");
    let e = parse_success(ProviderId::OpenAi, b"{").unwrap_err();
    assert_eq!(e.code, "invalid_json");
    assert_eq!(e.kind, ProviderErrorKind::MalformedResponse);
    let e = parse_success(ProviderId::OpenAi, br#"{"object":"response","status":"completed","output":[]}"#).unwrap_err();
    assert_eq!(e.code, "empty_text_output");
    let e = parse_success(ProviderId::Gemini, br#"{"promptFeedback":{"blockReason":"SAFETY"}}"#).unwrap_err();
    assert_eq!(e.code, "provider_blocked_prompt");
    let e = parse_success(ProviderId::DeepSeek, br#"{"object":"chat.completion","choices":[{},{}]}"#).unwrap_err();
    assert_eq!(e.code, "unexpected_choice_count");
}

#[test]
fn finish_reasons_and_usage() {
    assert_eq!(finish_reason(Some("END_TURN"), false), FinishReason::Stop);
    assert_eq!(finish_reason(Some("max_tokens"), false), FinishReason::Length);
    assert_eq!(finish_reason(Some("content_filter"), false), FinishReason::Refusal);
    assert_eq!(finish_reason(None, false), FinishReason::Other);
    assert_eq!(finish_reason(Some("stop"), true), FinishReason::Incomplete);
    assert!(token_usage(None, None, None).is_none());
    assert_eq!(token_usage(Some(1), None, None).unwrap().input_tokens, Some(1));
}

fn error_body(kind: &str) -> String {
    format!(r#"{{"error":{{"type":"{kind}","message":"vendor detail {SECRET}"}}}}"#)
}

#[test]
fn errors_are_typed_without_vendor_messages() {
    let cases = [
        (401u16, error_body("invalid_api_key"), ProviderErrorKind::Authentication),
        (429, error_body("rate_limit_error"), ProviderErrorKind::Quota),
        (403, error_body("PERMISSION_DENIED"), ProviderErrorKind::Authentication),
        (429, error_body("rate_limit"), ProviderErrorKind::Quota),
        (402, error_body("insufficient_balance"), ProviderErrorKind::Quota),
    ];
    for (status, body, expected_kind) in cases {
        let error = classify_http_error(status, body.as_bytes());
        assert_eq!(error.kind, expected_kind);
        let encoded = error.text();
        assert!(!encoded.contains(SECRET));
        assert!(!encoded.contains("vendor detail"));
    }
}

#[test]
fn does_not_return_vendor_message_or_secret() {
    let body = format!(r#"{{"error":{{"type":"authentication_error","message":"bad {SECRET}"}}}}"#);
    let error = classify_http_error(401, body.as_bytes());
    let serialized = error.text();
    assert!(!serialized.contains(SECRET));
    assert!(!serialized.contains("bad"));
    assert_eq!(error.kind, ProviderErrorKind::Authentication);
}

#[test]
fn maps_expired_auth_without_exposing_vendor_text() {
    let error = classify_http_error(
        401,
        br#"{"error":{"type":"authentication_error","message":"API key expired: fixture-secret-never-emit"}}"#,
    );
    assert_eq!(error.kind, ProviderErrorKind::AuthenticationExpired);
    assert!(!error.text().contains(SECRET));
}

#[test]
fn http_error_codes_come_from_the_vendor_or_the_status() {
    assert_eq!(classify_http_error(500, b"not json").code, "http_500");
    assert!(classify_http_error(500, b"").retryable);
    let e = classify_http_error(404, br#"{"error":{"code":"model_not_found"}}"#);
    assert_eq!(e.kind, ProviderErrorKind::UnsupportedCapability);
    assert_eq!(e.code, "model_not_found");
    assert_eq!(classify_http_error(409, b"{}").kind, ProviderErrorKind::InvalidRequest);
    assert_eq!(classify_http_error(504, b"{}").kind, ProviderErrorKind::Timeout);
    assert_eq!(classify_http_error(418, b"{}").message, "The provider returned an unexpected HTTP status.");
    assert_eq!(safe_vendor_code(br#"{"error":{"code":"bad code!"}}"#), None);
    assert_eq!(sanitize_code("ok-1.2_x").as_deref(), Some("ok-1.2_x"));
    assert!(sanitize_code("").is_none());
}

#[test]
fn allowlist_rejects_endpoint_changes() {
    let valid = UrlParts::parse("https://api.openai.com/v1/responses").unwrap();
    assert!(validate_destination(ProviderId::OpenAi, &valid).is_ok());
    for endpoint in [
        "http://api.openai.com/v1/responses",
        "https://api.openai.com:8443/v1/responses",
        "https://api.openai.com/v1/responses?target=private",
        "https://127.0.0.1/v1/responses",
        "https://api.openai.com.evil.example/v1/responses",
    ] {
        let url = UrlParts::parse(endpoint).unwrap();
        assert!(validate_destination(ProviderId::OpenAi, &url).is_err());
    }
}

#[test]
fn every_planned_endpoint_is_allowlisted() {
    for provider in ProviderId::ALL {
        let mut r = valid_request();
        r.provider = provider;
        let plan = plan_request(&r).unwrap();
        let url = UrlParts::parse(&plan.endpoint).unwrap();
        assert!(validate_destination(provider, &url).is_ok(), "{}", plan.endpoint);
    }
}

#[test]
fn request_plans_follow_each_contract() {
    let mut r = valid_request();
    r.system = Some("be brief".to_owned());
    r.messages.push(Message { role: Role::Assistant, content: "ok".to_owned() });
    r.provider = ProviderId::DeepSeek;
    let p = plan_request(&r).unwrap();
    assert_eq!(p.auth, AuthHeader::Bearer);
    assert_eq!(p.messages[0].role, "system");
    assert_eq!(p.messages.len(), 3);
    assert!(p.system.is_none());
    r.provider = ProviderId::Gemini;
    let p = plan_request(&r).unwrap();
    assert_eq!(p.auth, AuthHeader::XGoogApiKey);
    assert_eq!(p.messages[1].role, "model");
    assert_eq!(p.system.as_deref(), Some("be brief"));
    assert_eq!(
        p.endpoint,
        "https://generativelanguage.googleapis.com/v1beta/models/configured-model:generateContent"
    );
    r.provider = ProviderId::Anthropic;
    r.temperature_bits = Some(1.5f32.to_bits());
    assert_eq!(plan_request(&r).unwrap_err().code, "invalid_temperature");
    r.temperature_bits = Some(1.0f32.to_bits());
    assert!(plan_request(&r).unwrap().anthropic_version);
}

#[test]
fn transport_rules() {
    assert!(is_json_content_type(Some("Application/JSON; charset=utf-8")));
    assert!(!is_json_content_type(Some("text/html")));
    assert!(!is_json_content_type(None));
    assert!(check_declared_length(Some("4194305")).is_err());
    assert!(check_declared_length(Some("10")).is_ok());
    assert!(check_declared_length(Some("x")).is_ok());
    assert_eq!(classify_transport_failure(true, "x").code, "transport_timeout");
    assert_eq!(classify_transport_failure(false, "DNS error").kind, ProviderErrorKind::Dns);
    assert_eq!(classify_transport_failure(false, "reset").code, "network_failure");
    let mut body = BoundedBody::new();
    assert!(body.push_chunk(b"abc").is_ok());
    assert_eq!(body.as_slice(), b"abc");
    let big = vec![0u8; 4_194_304];
    assert!(body.push_chunk(&big).is_err());
    let r = finish_exchange(ProviderId::OpenAi, "m".to_owned(), 302, true, b"");
    assert_eq!(r.unwrap_err().code, "unexpected_redirect");
    let r = finish_exchange(ProviderId::OpenAi, "m".to_owned(), 200, false, b"{}");
    assert_eq!(r.unwrap_err().code, "unexpected_content_type");
    let ok = responses_body("hi");
    let r = finish_exchange(ProviderId::OpenAi, "m".to_owned(), 200, true, ok.as_bytes()).unwrap();
    assert_eq!(r.text, "hi");
    assert_eq!(r.requested_model, "m");
}

#[test]
fn protocol_round_trip_has_no_untyped_payload() {
    let integration = JsonLineProviderIntegration::new(ProviderId::OpenAi);
    let mut request = valid_request();
    request.request_id = "request-1".to_owned();
    request.temperature_bits = None;
    request.timeout_ms = None;
    request.max_output_tokens = 32;
    let command = integration.inference_command(request).unwrap();
    assert!(integration.check_command_version(&command).is_ok());
    assert!(matches!(command, WorkerCommand::Infer { protocol_version: 1, .. }));
    let mut other = valid_request();
    other.provider = ProviderId::Gemini;
    assert_eq!(integration.inference_command(other).unwrap_err().code, "provider_mismatch");
    assert!(integration.cancellation_command("bad id".to_owned()).is_err());
}

#[test]
fn worker_answers_each_command() {
    let mut state = WorkerState::new(ProviderId::OpenAi);
    assert!(matches!(state.ready_event(), WorkerEvent::Ready { protocol_version: 1, .. }));
    let start = state.step(WorkerInput::Line(Ok(WorkerCommand::Infer {
        protocol_version: PROTOCOL_VERSION,
        request: valid_request(),
    })));
    assert!(matches!(start.event, Some(WorkerEvent::Started { .. })));
    assert!(start.start.is_some());
    let busy = state.step(WorkerInput::Line(Ok(WorkerCommand::Infer {
        protocol_version: PROTOCOL_VERSION,
        request: valid_request(),
    })));
    match busy.event {
        Some(WorkerEvent::Error { error, request_id, .. }) => {
            assert_eq!(error.code, "worker_busy");
            assert_eq!(request_id.as_deref(), Some("req-1"));
        }
        _ => panic!("second request must be refused"),
    }
    let cancel = state.step(WorkerInput::Line(Ok(WorkerCommand::Cancel {
        protocol_version: PROTOCOL_VERSION,
        request_id: "req-1".to_owned(),
    })));
    assert!(cancel.abort);
    assert!(matches!(cancel.event, Some(WorkerEvent::Error { ref error, .. }) if error.kind == ProviderErrorKind::Cancelled));
    let none = state.step(WorkerInput::Line(Ok(WorkerCommand::Cancel {
        protocol_version: PROTOCOL_VERSION,
        request_id: "req-1".to_owned(),
    })));
    assert!(matches!(none.event, Some(WorkerEvent::Error { ref error, .. }) if error.code == "request_not_active"));
    let end = state.step(WorkerInput::InputClosed);
    assert!(end.stop && !end.abort);
}

#[test]
fn worker_checks_commands_credentials_and_arguments() {
    let bad = check_command(WorkerCommand::Cancel { protocol_version: 2, request_id: "x".to_owned() });
    assert_eq!(bad.unwrap_err().code, "unsupported_protocol_version");
    assert_eq!(check_credential(b"key\r\n".to_vec()).unwrap(), b"key".to_vec());
    assert_eq!(check_credential(b"\n".to_vec()).unwrap_err().code, "invalid_credential");
    assert_eq!(check_credential(b"a\0b".to_vec()).unwrap_err().code, "invalid_credential");
    assert_eq!(check_credential(vec![b'a'; 16_385]).unwrap_err().code, "credential_too_large");
    let args = |v: &[&str]| v.iter().map(|s| s.to_string()).collect::<Vec<_>>();
    assert_eq!(parse_worker_args(&args(&["--provider", "xai"])).unwrap(), WorkerMode::Run(ProviderId::Xai));
    assert_eq!(
        parse_worker_args(&args(&["--capabilities", "--provider", "gemini"])).unwrap(),
        WorkerMode::Capabilities(ProviderId::Gemini)
    );
    assert_eq!(parse_worker_args(&args(&[])).unwrap_err().message, "--provider is required.");
    assert_eq!(parse_worker_args(&args(&["--x"])).unwrap_err().code, "invalid_argument");
}
