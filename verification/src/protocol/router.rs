//! Requests to the router, their payloads, and the request status machine.
use super::bounded::{byte_len, BoundedString, BoundedVec};
use super::errors::{fail, is_error, ContractError, ContractErrorCode};
use super::integration::{integration_verdict, IntegrationSocketDefaults};
use super::metrics::MetricSample;
use super::provider::{ProviderId, ProviderStatus};
use crate::text::str_eq;
use vstd::prelude::*;

verus! {

use RequestStatus::{
    AwaitingConsent, CancelRequested, Cancelled, Completed, Failed, FallbackToLocal, Queued,
    Received, RunningLocal, RunningRemote,
};

pub const PROTOCOL_VERSION_V1: &'static str = "sentia.v1";

pub const MAX_REQUEST_PAYLOAD_BYTES_V1: usize = 262_144;

pub const MAX_RESULT_PAYLOAD_BYTES_V1: usize = 262_144;

pub const INFERENCE_SOCKET_PATH_V1: &'static str = "/run/sentia-inference/llama.sock";

pub const LOCAL_BROKER_SOCKET_PATH_V1: &'static str = "/run/sentia-local/broker.sock";

pub const HEALTH_METRICS_SOCKET_PATH_V1: &'static str = "/run/sentia-health/metrics.sock";

pub const USER_ROUTER_SOCKET_TEMPLATE_V1: &'static str = "$XDG_RUNTIME_DIR/sentia/router.sock";

pub type ProtocolVersion = BoundedString<24>;

pub type RequestId = BoundedString<64>;

pub type SessionId = BoundedString<64>;

pub type TraceId = BoundedString<64>;

/// A validation outcome: no error, or the code and message of the first one found.
pub type Verdict = Option<(ContractErrorCode, Seq<char>)>;

/// `r` reports exactly the verdict `v`.
pub open spec fn reports(r: Result<(), ContractError>, v: Verdict) -> bool {
    match r {
        Ok(_) => v is None,
        Err(e) => match v {
            Some(p) => is_error(e, p.0, p.1),
            None => false,
        },
    }
}

#[derive(Debug, Clone, Copy, PartialEq, Eq, Structural)]
pub enum RoutingPolicy {
    LocalOnly,
    LocalPreferred,
    RemotePreferred,
    AskBeforeRemote,
}

#[derive(Debug, Clone, Copy, PartialEq, Eq, Structural)]
pub enum RouterCapability {
    Inference,
    Tooling,
    PackagePlanning,
    Health,
    Retrieval,
    IntentClassification,
}

#[derive(Debug, Clone, Copy, PartialEq, Eq, Structural)]
pub enum ProvenanceSource {
    UserInput,
    TerminalOutput,
    FileSnippet,
    SystemTool,
    ProviderResponse,
}

#[derive(Debug, Clone, Copy, PartialEq, Eq, Structural)]
pub enum DataSensitivity {
    Public,
    Internal,
    Sensitive,
    Restricted,
}

#[derive(Debug, Clone, PartialEq, Eq)]
pub struct DataProvenance {
    pub source: ProvenanceSource,
    pub sensitivity: DataSensitivity,
    pub redaction_applied: bool,
    pub origin_label: BoundedString<128>,
    pub trace_id: Option<TraceId>,
}

#[derive(Debug, Clone, PartialEq, Eq)]
pub struct RequestPayload {
    pub mime_type: BoundedString<64>,
    pub content: BoundedString<262_144>,
    pub byte_count: u32,
    pub truncated: bool,
}

pub open spec fn request_payload_verdict(p: RequestPayload) -> Verdict {
    let actual = byte_len(p.content@);
    if actual > MAX_REQUEST_PAYLOAD_BYTES_V1 {
        Some((ContractErrorCode::PayloadTooLarge, "request payload exceeds v1 byte bound"@))
    } else if actual != p.byte_count as usize {
        Some(
            (
                ContractErrorCode::ValidationFailed,
                "request payload byte_count does not match content length"@,
            ),
        )
    } else {
        None
    }
}

impl RequestPayload {
    /// The content fits the v1 bound and `byte_count` is its length in bytes.
    pub fn validate(&self) -> (r: Result<(), ContractError>)
        ensures
            reports(r, request_payload_verdict(*self)),
    {
        let actual = self.content.as_str().len();
        if actual > MAX_REQUEST_PAYLOAD_BYTES_V1 {
            return Err(
                fail(ContractErrorCode::PayloadTooLarge, "request payload exceeds v1 byte bound"),
            );
        }
        if actual != self.byte_count as usize {
            return Err(
                fail(
                    ContractErrorCode::ValidationFailed,
                    "request payload byte_count does not match content length",
                ),
            );
        }
        Ok(())
    }
}

#[derive(Debug, Clone, PartialEq, Eq)]
pub struct ResultPayload {
    pub mime_type: BoundedString<64>,
    pub content: BoundedString<262_144>,
    pub byte_count: u32,
    pub truncated: bool,
}

pub open spec fn result_payload_verdict(p: ResultPayload) -> Verdict {
    let actual = byte_len(p.content@);
    if actual > MAX_RESULT_PAYLOAD_BYTES_V1 {
        Some((ContractErrorCode::PayloadTooLarge, "result payload exceeds v1 byte bound"@))
    } else if actual != p.byte_count as usize {
        Some(
            (
                ContractErrorCode::ValidationFailed,
                "result payload byte_count does not match content length"@,
            ),
        )
    } else {
        None
    }
}

impl ResultPayload {
    /// The content fits the v1 bound and `byte_count` is its length in bytes.
    pub fn validate(&self) -> (r: Result<(), ContractError>)
        ensures
            reports(r, result_payload_verdict(*self)),
    {
        let actual = self.content.as_str().len();
        if actual > MAX_RESULT_PAYLOAD_BYTES_V1 {
            return Err(
                fail(ContractErrorCode::PayloadTooLarge, "result payload exceeds v1 byte bound"),
            );
        }
        if actual != self.byte_count as usize {
            return Err(
                fail(
                    ContractErrorCode::ValidationFailed,
                    "result payload byte_count does not match content length",
                ),
            );
        }
        Ok(())
    }
}

#[derive(Debug, Clone, PartialEq, Eq)]
pub struct ConsentToken {
    pub token_id: BoundedString<64>,
    pub payload_sha256: BoundedString<64>,
    pub provider_id: Option<ProviderId>,
    pub issued_at_ms: u64,
    pub expires_at_ms: u64,
}

#[derive(Debug, Clone, PartialEq, Eq)]
pub struct RouterRequest {
    pub version: ProtocolVersion,
    pub request_id: RequestId,
    pub session_id: SessionId,
    pub created_at_ms: u64,
    pub capability: RouterCapability,
    pub policy: RoutingPolicy,
    pub provider_id: Option<ProviderId>,
    pub provenance: DataProvenance,
    pub payload: RequestPayload,
    pub consent_token: Option<ConsentToken>,
}

pub open spec fn router_request_verdict(q: RouterRequest) -> Verdict {
    if q.version@ != PROTOCOL_VERSION_V1@ {
        Some((ContractErrorCode::UnsupportedVersion, "router request version is not sentia.v1"@))
    } else if request_payload_verdict(q.payload) is Some {
        request_payload_verdict(q.payload)
    } else if q.policy == RoutingPolicy::AskBeforeRemote && q.consent_token is None {
        Some(
            (
                ContractErrorCode::PolicyDenied,
                "ASK_BEFORE_REMOTE requires a consent token issued by trusted UI"@,
            ),
        )
    } else if q.consent_token matches Some(t) && t.expires_at_ms <= t.issued_at_ms {
        Some(
            (
                ContractErrorCode::ValidationFailed,
                "consent token expiry must be after issue timestamp"@,
            ),
        )
    } else {
        None
    }
}

impl RouterRequest {
    /// Checks the version, the payload, and the consent that the policy demands.
    pub fn validate(&self) -> (r: Result<(), ContractError>)
        ensures
            reports(r, router_request_verdict(*self)),
    {
        if !str_eq(self.version.as_str(), PROTOCOL_VERSION_V1) {
            return Err(
                fail(
                    ContractErrorCode::UnsupportedVersion,
                    "router request version is not sentia.v1",
                ),
            );
        }
        self.payload.validate()?;
        if self.policy == RoutingPolicy::AskBeforeRemote && self.consent_token.is_none() {
            return Err(
                fail(
                    ContractErrorCode::PolicyDenied,
                    "ASK_BEFORE_REMOTE requires a consent token issued by trusted UI",
                ),
            );
        }
        if let Some(token) = &self.consent_token {
            if token.expires_at_ms <= token.issued_at_ms {
                return Err(
                    fail(
                        ContractErrorCode::ValidationFailed,
                        "consent token expiry must be after issue timestamp",
                    ),
                );
            }
        }
        Ok(())
    }
}

#[derive(Debug, Clone, Copy, PartialEq, Eq, Structural)]
pub enum RequestStatus {
    Received,
    Queued,
    AwaitingConsent,
    RunningLocal,
    RunningRemote,
    FallbackToLocal,
    Completed,
    Failed,
    CancelRequested,
    Cancelled,
}

/// The edges of the request status machine.
pub open spec fn transition_allowed(from: RequestStatus, to: RequestStatus) -> bool {
    match (from, to) {
        (Received, Queued) | (Received, AwaitingConsent) | (Queued, RunningLocal) | (
            Queued,
            RunningRemote,
        ) | (Queued, CancelRequested) | (AwaitingConsent, RunningRemote) | (
            AwaitingConsent,
            CancelRequested,
        ) | (RunningRemote, FallbackToLocal) | (RunningRemote, Completed) | (
            RunningRemote,
            Failed,
        ) | (RunningRemote, CancelRequested) | (FallbackToLocal, RunningLocal) | (
            RunningLocal,
            Completed,
        ) | (RunningLocal, Failed) | (RunningLocal, CancelRequested) | (
            CancelRequested,
            Cancelled,
        ) => true,
        _ => false,
    }
}

pub fn is_valid_status_transition(from: RequestStatus, to: RequestStatus) -> (r: bool)
    ensures
        r == transition_allowed(from, to),
{
    match (from, to) {
        (Received, Queued) | (Received, AwaitingConsent) | (Queued, RunningLocal) | (
            Queued,
            RunningRemote,
        ) | (Queued, CancelRequested) | (AwaitingConsent, RunningRemote) | (
            AwaitingConsent,
            CancelRequested,
        ) | (RunningRemote, FallbackToLocal) | (RunningRemote, Completed) | (
            RunningRemote,
            Failed,
        ) | (RunningRemote, CancelRequested) | (FallbackToLocal, RunningLocal) | (
            RunningLocal,
            Completed,
        ) | (RunningLocal, Failed) | (RunningLocal, CancelRequested) | (
            CancelRequested,
            Cancelled,
        ) => true,
        _ => false,
    }
}

/// A status from which no transition leaves.
pub open spec fn is_terminal(s: RequestStatus) -> bool {
    s == RequestStatus::Completed || s == RequestStatus::Failed || s == RequestStatus::Cancelled
}

/// Terminal statuses are final, nothing re-enters `Received`, and the
/// machine never loops on a status.
pub proof fn lemma_status_machine_shape(from: RequestStatus, to: RequestStatus)
    ensures
        is_terminal(from) ==> !transition_allowed(from, to),
        !transition_allowed(from, RequestStatus::Received),
        !transition_allowed(from, from),
        transition_allowed(from, RequestStatus::Cancelled) <==> from
            == RequestStatus::CancelRequested,
{
}

/// `s` reaches `Completed` in at most `n` allowed steps.
pub open spec fn completes_within(s: RequestStatus, n: nat) -> bool
    decreases n,
{
    s == RequestStatus::Completed || (n > 0 && exists|t: RequestStatus|
        #[trigger] transition_allowed(s, t) && completes_within(t, (n - 1) as nat))
}

/// Every request that is not yet finished or being cancelled can still
/// complete, in at most three steps: a model run, local or remote, can end
/// in `Completed` or `Failed` directly, and a remote run can fall back to a
/// local one.
pub proof fn lemma_requests_can_complete(s: RequestStatus)
    ensures
        transition_allowed(RunningLocal, Completed) && transition_allowed(RunningLocal, Failed),
        transition_allowed(RunningRemote, Completed) && transition_allowed(RunningRemote, Failed),
        transition_allowed(RunningRemote, FallbackToLocal),
        !is_terminal(s) && s != CancelRequested ==> completes_within(s, 3),
{
    assert(completes_within(Completed, 0));
    assert(transition_allowed(RunningLocal, Completed));
    assert(completes_within(RunningLocal, 1));
    assert(transition_allowed(RunningRemote, Completed));
    assert(completes_within(RunningRemote, 1));
    assert(completes_within(RunningLocal, 2)) by {
        assert(completes_within(Completed, 1));
    }
    assert(completes_within(RunningRemote, 2)) by {
        assert(completes_within(Completed, 1));
    }
    assert(completes_within(FallbackToLocal, 2)) by {
        assert(transition_allowed(FallbackToLocal, RunningLocal));
    }
    assert(completes_within(Queued, 2)) by {
        assert(transition_allowed(Queued, RunningLocal));
    }
    assert(completes_within(AwaitingConsent, 2)) by {
        assert(transition_allowed(AwaitingConsent, RunningRemote));
    }
    assert(completes_within(Received, 3)) by {
        assert(transition_allowed(Received, Queued));
    }
    assert(completes_within(RunningLocal, 3)) by {
        assert(completes_within(Completed, 2));
    }
    assert(completes_within(RunningRemote, 3)) by {
        assert(completes_within(Completed, 2));
    }
    assert(completes_within(FallbackToLocal, 3)) by {
        assert(transition_allowed(FallbackToLocal, RunningLocal));
    }
    assert(completes_within(Queued, 3)) by {
        assert(transition_allowed(Queued, RunningLocal));
    }
    assert(completes_within(AwaitingConsent, 3)) by {
        assert(transition_allowed(AwaitingConsent, RunningRemote));
    }
}

#[derive(Debug, Clone, PartialEq)]
pub struct RouterResult {
    pub version: ProtocolVersion,
    pub request_id: RequestId,
    pub status: RequestStatus,
    pub provider_status: Option<ProviderStatus>,
    pub payload: Option<ResultPayload>,
    pub error: Option<ContractError>,
    pub metrics: Vec<MetricSample>,
}

pub open spec fn router_result_verdict(r: RouterResult) -> Verdict {
    if r.version@ != PROTOCOL_VERSION_V1@ {
        Some((ContractErrorCode::UnsupportedVersion, "router result version is not sentia.v1"@))
    } else if r.payload matches Some(p) && result_payload_verdict(p) is Some {
        result_payload_verdict(r.payload->0)
    } else if r.status == RequestStatus::Completed && r.payload is None {
        Some((ContractErrorCode::ValidationFailed, "completed result requires payload"@))
    } else if r.status == RequestStatus::Failed && r.error is None {
        Some((ContractErrorCode::ValidationFailed, "failed result requires structured error"@))
    } else {
        None
    }
}

impl RouterResult {
    /// Checks the version and payload, and that a completed result carries a
    /// payload and a failed one an error.
    pub fn validate(&self) -> (r: Result<(), ContractError>)
        ensures
            reports(r, router_result_verdict(*self)),
    {
        if !str_eq(self.version.as_str(), PROTOCOL_VERSION_V1) {
            return Err(
                fail(ContractErrorCode::UnsupportedVersion, "router result version is not sentia.v1"),
            );
        }
        if let Some(payload) = &self.payload {
            payload.validate()?;
        }
        if self.status == RequestStatus::Completed && self.payload.is_none() {
            return Err(fail(ContractErrorCode::ValidationFailed, "completed result requires payload"));
        }
        if self.status == RequestStatus::Failed && self.error.is_none() {
            return Err(
                fail(ContractErrorCode::ValidationFailed, "failed result requires structured error"),
            );
        }
        Ok(())
    }
}

#[derive(Debug, Clone, PartialEq, Eq)]
pub struct RouterConfig {
    pub version: ProtocolVersion,
    pub socket_path: String,
    pub default_policy: RoutingPolicy,
    pub allow_remote_providers: bool,
    pub max_in_flight_requests: u16,
    pub max_queue_depth: u16,
    pub max_payload_bytes: u32,
    pub max_stream_event_bytes: u32,
    pub allowed_provider_ids: BoundedVec<ProviderId, 32>,
    pub integration_sockets: IntegrationSocketDefaults,
}

pub open spec fn router_config_verdict(c: RouterConfig) -> Verdict {
    if c.version@ != PROTOCOL_VERSION_V1@ {
        Some((ContractErrorCode::UnsupportedVersion, "router config version is not sentia.v1"@))
    } else if c.max_payload_bytes > MAX_REQUEST_PAYLOAD_BYTES_V1 {
        Some(
            (
                ContractErrorCode::ValidationFailed,
                "router max_payload_bytes exceeds protocol bound"@,
            ),
        )
    } else {
        integration_verdict(c.integration_sockets)
    }
}

impl RouterConfig {
    pub fn validate(&self) -> (r: Result<(), ContractError>)
        ensures
            reports(r, router_config_verdict(*self)),
    {
        if !str_eq(self.version.as_str(), PROTOCOL_VERSION_V1) {
            return Err(
                fail(
                    ContractErrorCode::UnsupportedVersion,
                    "router config version is not sentia.v1",
                ),
            );
        }
        if self.max_payload_bytes as usize > MAX_REQUEST_PAYLOAD_BYTES_V1 {
            return Err(
                fail(
                    ContractErrorCode::ValidationFailed,
                    "router max_payload_bytes exceeds protocol bound",
                ),
            );
        }
        self.integration_sockets.validate()
    }
}

} // verus!
