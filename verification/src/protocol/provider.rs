//! Provider status and capability records as the router reports them.
use super::bounded::{BoundedString, BoundedVec};
use vstd::prelude::*;

verus! {

pub type ProviderId = BoundedString<48>;

pub type ProviderName = BoundedString<64>;

#[derive(Debug, Clone, Copy, PartialEq, Eq, Structural)]
pub enum ProviderHealth {
    Healthy,
    Degraded,
    Unavailable,
    Disabled,
    Starting,
}

#[derive(Debug, Clone, Copy, PartialEq, Eq, Structural)]
pub enum ProviderState {
    Idle,
    Warming,
    Serving,
    Backoff,
    Failed,
}

#[derive(Debug, Clone, Copy, PartialEq, Eq, Structural)]
pub enum ProviderCapability {
    InferenceText,
    InferenceStructured,
    Streaming,
    Cancellation,
    ConsentPreview,
    Classification,
}

#[derive(Debug, Clone, PartialEq, Eq)]
pub struct ProviderCapabilities {
    pub provider_id: ProviderId,
    pub provider_name: ProviderName,
    pub supports_remote_egress: bool,
    pub requires_explicit_consent: bool,
    pub max_input_bytes: u32,
    pub max_output_bytes: u32,
    pub capabilities: BoundedVec<ProviderCapability, 16>,
}

#[derive(Debug, Clone, PartialEq, Eq)]
pub struct ProviderStatus {
    pub provider_id: ProviderId,
    pub health: ProviderHealth,
    pub state: ProviderState,
    pub checked_at_ms: u64,
    pub message: Option<String>,
    pub observed_latency_ms: Option<u32>,
}

#[derive(Debug, Clone, Copy, PartialEq, Eq, Structural)]
pub enum ProviderErrorCode {
    Network,
    Dns,
    Authentication,
    Quota,
    Timeout,
    UnsupportedCapability,
    MalformedResponse,
    ProcessFailure,
    CircuitOpen,
    Internal,
}

#[derive(Debug, Clone, PartialEq, Eq)]
pub struct ProviderError {
    pub code: ProviderErrorCode,
    pub provider_id: ProviderId,
    pub retryable: bool,
    pub message: String,
    pub upstream_status: Option<u16>,
}

} // verus!
