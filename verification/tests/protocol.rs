use sentia::protocol::bounded::{BoundedString, BoundedVec};
use sentia::protocol::integration::{
    AccessScope, IntegrationRole, IntegrationSocket, IntegrationSocketDefaults,
};
use sentia::protocol::errors::ContractErrorCode;
use sentia::protocol::router::{
    DataProvenance, DataSensitivity, ProvenanceSource, RequestPayload, RouterCapability,
    RouterConfig, RouterRequest, RoutingPolicy,
};
use sentia::protocol::socket::{CancelReason, CancelRequest, JsonlFrame};
use sentia::protocol::tools::{ToolName, ToolRegistry};
use sentia::protocol::transactions::{
    ApprovalBinding, ApprovalPlan, CanonicalTransactionPlan, PackageDelta, RequiredEvidence,
    TransactionKind,
};

fn bounded<const MAX: usize>(value: &str) -> BoundedString<MAX> {
    BoundedString::new(value.to_owned()).expect("value should be in bounds")
}

fn ask_before_remote_without_consent() -> RouterRequest {
    RouterRequest {
        version: bounded("sentia.v1"),
        request_id: bounded("req-ask-1"),
        session_id: bounded("session-1"),
        created_at_ms: 10,
        capability: RouterCapability::Inference,
        policy: RoutingPolicy::AskBeforeRemote,
        provider_id: None,
        provenance: DataProvenance {
            source: ProvenanceSource::UserInput,
            sensitivity: DataSensitivity::Sensitive,
            redaction_applied: true,
            origin_label: bounded("terminal_capture"),
            trace_id: None,
        },
        payload: RequestPayload {
            mime_type: bounded("text/plain"),
            content: bounded("what is on disk"),
            byte_count: 15,
            truncated: false,
        },
        consent_token: None,
    }
}

#[test]
fn ask_before_remote_requires_consent_token() {
    let request = ask_before_remote_without_consent();
    let error = request.validate().expect_err("validation should fail without consent token");
    assert_eq!(error.code, ContractErrorCode::PolicyDenied);
}

#[test]
fn local_only_request_validates() {
    let mut request = ask_before_remote_without_consent();
    request.policy = RoutingPolicy::LocalOnly;
    assert!(request.validate().is_ok());
    request.payload.byte_count = 14;
    assert!(request.validate().is_err());
}

#[test]
fn required_registry_contains_all_tools_without_unsafe_names() {
    let registry = ToolRegistry::required_v1();
    registry.validate_complete_required_set().expect("required registry must validate");
    assert_eq!(registry.tools.len(), ToolName::ALL.len());
    assert!(
        registry.tools.iter().all(|tool| tool.name.as_str() != "execute_shell"),
        "registry must not expose execute_shell"
    );
    assert!(
        registry.tools.iter().all(|tool| tool.name.as_str() != "client_approved_authority"),
        "registry must not trust client-approved authority flags"
    );
    assert!(
        registry.tools.iter().all(|tool| {
            tool.input_schema_ref == "schemas/tools/tool-invocation-v1.schema.json#/$defs/tool_request"
        }),
        "all tools should use shared ToolRequest schema"
    );
    assert!(
        registry.tools.iter().all(|tool| {
            tool.output_schema_ref == "schemas/tools/tool-invocation-v1.schema.json#/$defs/tool_result"
        }),
        "all tools should use shared ToolResult schema"
    );
}

fn digest(c: char) -> String {
    std::iter::repeat(c).take(64).collect()
}

fn sample_plan() -> CanonicalTransactionPlan {
    CanonicalTransactionPlan {
        version: bounded("sentia.v1"),
        plan_id: bounded("plan-1"),
        created_at_ms: 1234,
        requester_uid: 1000,
        kind: TransactionKind::AptInstall,
        requested_targets: vec![bounded("vim"), bounded("curl")],
        package_changes: vec![
            PackageDelta {
                package: bounded("vim"),
                from_version: None,
                to_version: Some(bounded("2:9.1-1")),
                download_bytes: 600_000,
                installed_size_delta_bytes: 2_000_000,
                service_effect: None,
            },
            PackageDelta {
                package: bounded("curl"),
                from_version: Some(bounded("8.7.1-1")),
                to_version: Some(bounded("8.7.1-2")),
                download_bytes: 120_000,
                installed_size_delta_bytes: 64_000,
                service_effect: None,
            },
        ],
        service_changes: vec![],
        unknown_effects: vec![bounded("manual review required")],
        state_fingerprint_sha256: bounded(&digest('a')),
        approval_required: true,
    }
}

#[test]
fn canonical_transaction_json_is_stable_across_input_order() {
    let first = sample_plan();
    let mut second = sample_plan();
    second.requested_targets.reverse();
    second.package_changes.reverse();

    let first_canonical = first.canonical_plan().expect("canonical serialization");
    let second_canonical = second.canonical_plan().expect("canonical serialization");

    assert_eq!(first_canonical, second_canonical);
    let targets: Vec<&str> = first_canonical.requested_targets.iter().map(|t| t.as_str()).collect();
    assert_eq!(targets, ["curl", "vim"], "requested targets should be canonically sorted");
    assert_eq!(
        first_canonical.package_changes[0].package.as_str(),
        "curl",
        "curl delta should be serialized first after canonicalization"
    );
}

#[test]
fn approval_plan_has_binding_digest_and_no_client_approved_flag() {
    let approval = ApprovalPlan {
        version: bounded("sentia.v1"),
        approval_id: bounded("approval-1"),
        transaction_plan: sample_plan(),
        binding: ApprovalBinding {
            session_id: bounded("session-1"),
            caller_uid: 1000,
            operation_digest_sha256: bounded(&digest('b')),
            relevant_state_digest_sha256: bounded(&digest('c')),
            issued_at_ms: 100,
            expires_at_ms: 200,
            single_use: true,
            polkit_action: bounded("org.sentia.apt.install"),
        },
        required_evidence: vec![RequiredEvidence {
            case_id: bounded("TOOLS-REGISTRY-SCHEMA-COVERAGE"),
            rationale: bounded("requires canonical review before mutation"),
        }],
    };
    approval.validate().expect("approval plan validation");
}

#[test]
fn bounded_strings_refuse_long_text() {
    assert!(BoundedString::<4>::new("abcde".to_owned()).is_err());
    assert_eq!(BoundedString::<5>::new("abcde".to_owned()).unwrap().as_str(), "abcde");
}

fn cancel_frame(version: &str) -> JsonlFrame {
    JsonlFrame::Cancel {
        version: version.to_owned(),
        frame_id: bounded("frame-2"),
        stream_id: bounded("stream-1"),
        cancel: CancelRequest {
            cancel_id: bounded("cancel-1"),
            request_id: bounded("req-9"),
            reason: CancelReason::UserRequested,
            requested_at_ms: 42,
        },
    }
}

#[test]
fn cancel_frame_round_trips_with_ids_and_version() {
    let parsed = cancel_frame("sentia.v1");
    parsed.validate_version().expect("version validation");

    match &parsed {
        JsonlFrame::Cancel { cancel, .. } => {
            assert_eq!(cancel.cancel_id.as_str(), "cancel-1");
            assert_eq!(cancel.request_id.as_str(), "req-9");
            assert_eq!(cancel.reason, CancelReason::UserRequested);
            assert_eq!(cancel.requested_at_ms, 42);
        }
        _ => panic!("frame kind must stay cancel"),
    }
}

#[test]
fn frames_of_another_version_are_refused() {
    let error = cancel_frame("sentia.v2")
        .validate_version()
        .expect_err("only sentia.v1 frames are accepted");
    assert_eq!(error.code, ContractErrorCode::UnsupportedVersion);
}

fn socket(
    role: IntegrationRole,
    access_scope: AccessScope,
    path: &str,
    owner_user: Option<&str>,
    directory_mode: &str,
    socket_mode: &str,
    nonsecret_metrics_only: bool,
) -> IntegrationSocket {
    IntegrationSocket {
        role,
        access_scope,
        path: path.to_owned(),
        owner_user: owner_user.map(str::to_owned),
        directory_mode_octal: directory_mode.to_owned(),
        socket_mode_octal: socket_mode.to_owned(),
        require_peer_uid_check: true,
        enforce_peer_uid_quotas: true,
        nonsecret_metrics_only,
        allow_cross_user_journal_access: false,
        privileged_mutation_authority: false,
        deviation_reason: None,
    }
}

fn base_router_config() -> RouterConfig {
    RouterConfig {
        version: bounded("sentia.v1"),
        socket_path: "$XDG_RUNTIME_DIR/sentia/router.sock".to_owned(),
        default_policy: RoutingPolicy::LocalPreferred,
        allow_remote_providers: true,
        max_in_flight_requests: 16,
        max_queue_depth: 64,
        max_payload_bytes: 262144,
        max_stream_event_bytes: 65536,
        allowed_provider_ids: BoundedVec::new(vec![]).unwrap(),
        integration_sockets: IntegrationSocketDefaults {
            inference: socket(
                IntegrationRole::InferencePrivate,
                AccessScope::PrivateSystem,
                "/run/sentia-inference/llama.sock",
                Some("sentia-inference"),
                "0700",
                "0600",
                false,
            ),
            local_broker: socket(
                IntegrationRole::LocalBroker,
                AccessScope::LocalMultiUser,
                "/run/sentia-local/broker.sock",
                None,
                "0755",
                "0660",
                false,
            ),
            health_metrics: socket(
                IntegrationRole::HealthMetrics,
                AccessScope::LocalMultiUser,
                "/run/sentia-health/metrics.sock",
                None,
                "0755",
                "0660",
                true,
            ),
            user_router: socket(
                IntegrationRole::UserRouter,
                AccessScope::PerUser,
                "$XDG_RUNTIME_DIR/sentia/router.sock",
                None,
                "0700",
                "0600",
                false,
            ),
        },
    }
}

#[test]
fn integration_defaults_validate_without_deviation() {
    let config = base_router_config();
    config.validate().expect("router config should validate");
    assert!(
        config.integration_sockets.deviations().is_empty(),
        "default integration sockets should not report deviations"
    );
}

#[test]
fn health_metrics_rejects_cross_user_journal_access() {
    let mut config = base_router_config();
    config.integration_sockets.health_metrics.allow_cross_user_journal_access = true;
    let error = config
        .validate()
        .expect_err("health metrics must reject unrestricted journal exposure");
    assert_eq!(error.code, ContractErrorCode::ValidationFailed);
}

#[test]
fn user_router_mode_deviation_requires_reason() {
    let mut config = base_router_config();
    config.integration_sockets.user_router.socket_mode_octal = "0660".to_owned();
    let error = config
        .validate()
        .expect_err("router socket mode deviation must include reason");
    assert_eq!(error.code, ContractErrorCode::ValidationFailed);
}

#[test]
fn user_router_mode_deviation_with_reason_is_allowed() {
    let mut config = base_router_config();
    config.integration_sockets.user_router.socket_mode_octal = "0660".to_owned();
    config.integration_sockets.user_router.deviation_reason =
        Some("source-validated sandbox policy requires broader mode".to_owned());
    config
        .validate()
        .expect("documented source-validated deviation should pass contract checks");
    assert_eq!(
        config.integration_sockets.deviations(),
        vec!["user_router.socket_mode_octal".to_owned()]
    );
}

#[test]
fn inference_endpoint_cannot_grant_mutation_authority() {
    let mut config = base_router_config();
    config.integration_sockets.inference.privileged_mutation_authority = true;
    let error = config
        .validate()
        .expect_err("inference admission must not grant privileged mutation authorization");
    assert_eq!(error.code, ContractErrorCode::ValidationFailed);
}

#[test]
fn oversized_router_payload_bound_is_refused() {
    let mut config = base_router_config();
    config.max_payload_bytes = 262145;
    let error = config.validate().expect_err("payload bound above the protocol's");
    assert_eq!(error.code, ContractErrorCode::ValidationFailed);
    assert_eq!(error.message, "router max_payload_bytes exceeds protocol bound");
}

#[test]
fn plans_without_targets_have_no_canonical_form() {
    let mut plan = sample_plan();
    plan.requested_targets.clear();
    plan.package_changes.clear();
    let error = plan.canonical_plan().expect_err("a plan must name a target or change");
    assert_eq!(error.code, ContractErrorCode::ValidationFailed);
    let mut plan = sample_plan();
    plan.version = bounded("sentia.v0");
    assert_eq!(plan.canonical_plan().unwrap_err().code, ContractErrorCode::UnsupportedVersion);
}
