//! The JSON-lines frames exchanged over the router's Unix sockets.
use super::bounded::BoundedString;
use super::errors::{fail, ContractError, ContractErrorCode};
use super::provider::ProviderStatus;
use super::router::{reports, RequestId, RequestStatus, RouterRequest, RouterResult, Verdict, PROTOCOL_VERSION_V1};
use super::tools::ToolName;
use crate::text::{owned, str_eq};
use vstd::prelude::*;

verus! {

pub const SOCKET_TRANSPORT_V1: &'static str = "jsonl-unix-v1";

pub type FrameId = BoundedString<64>;

pub type StreamId = BoundedString<64>;

pub type EventId = BoundedString<64>;

pub type CancelId = BoundedString<64>;

#[derive(Debug, Clone, PartialEq, Eq)]
pub struct UnixSocketSecurity {
    pub transport: String,
    pub runtime_dir_only: bool,
    pub require_peer_credentials: bool,
    pub directory_mode_octal: String,
    pub socket_mode_octal: String,
}

impl Default for UnixSocketSecurity {
    /// The v1 transport, confined to the runtime directory, with peer
    /// credentials required, a private directory and an owner-only socket.
    fn default() -> (r: Self)
        ensures
            r.transport@ == SOCKET_TRANSPORT_V1@,
            r.runtime_dir_only,
            r.require_peer_credentials,
            r.directory_mode_octal@ == "0700"@,
            r.socket_mode_octal@ == "0600"@,
    {
        Self {
            transport: owned(SOCKET_TRANSPORT_V1),
            runtime_dir_only: true,
            require_peer_credentials: true,
            directory_mode_octal: owned("0700"),
            socket_mode_octal: owned("0600"),
        }
    }
}

#[derive(Debug, Clone, Copy, PartialEq, Eq, Structural)]
pub enum ToolPhase {
    Queued,
    Validating,
    Running,
    Verifying,
    Completed,
    Failed,
}

#[derive(Debug, Clone, PartialEq, Eq)]
pub enum EventPayload {
    StateTransition { from: RequestStatus, to: RequestStatus },
    OutputDelta { delta: BoundedString<8192>, cumulative_bytes: u32 },
    ProviderStatus { provider_status: ProviderStatus },
    ToolProgress { tool: ToolName, phase: ToolPhase, detail: Option<String> },
    Terminal { final_status: RequestStatus },
}

#[derive(Debug, Clone, PartialEq, Eq)]
pub struct StreamEvent {
    pub event_id: EventId,
    pub request_id: RequestId,
    pub sequence: u64,
    pub status: RequestStatus,
    pub emitted_at_ms: u64,
    pub payload: EventPayload,
}

#[derive(Debug, Clone, Copy, PartialEq, Eq, Structural)]
pub enum CancelReason {
    UserRequested,
    Timeout,
    ClientDisconnect,
    ServiceShutdown,
}

#[derive(Debug, Clone, PartialEq, Eq)]
pub struct CancelRequest {
    pub cancel_id: CancelId,
    pub request_id: RequestId,
    pub reason: CancelReason,
    pub requested_at_ms: u64,
}

#[derive(Debug, Clone, PartialEq, Eq)]
pub struct CancelAck {
    pub cancel_id: CancelId,
    pub request_id: RequestId,
    pub accepted: bool,
    pub final_status: RequestStatus,
    pub message: Option<String>,
}

#[derive(Debug, Clone, PartialEq)]
pub enum JsonlFrame {
    Request { version: String, frame_id: FrameId, stream_id: StreamId, request: RouterRequest },
    Event { version: String, frame_id: FrameId, stream_id: StreamId, event: StreamEvent },
    Result { version: String, frame_id: FrameId, stream_id: StreamId, result: RouterResult },
    Error { version: String, frame_id: FrameId, stream_id: StreamId, error: ContractError },
    Cancel { version: String, frame_id: FrameId, stream_id: StreamId, cancel: CancelRequest },
    CancelAck {
        version: String,
        frame_id: FrameId,
        stream_id: StreamId,
        cancel_ack: CancelAck,
    },
}

/// The protocol version a frame carries, whatever its kind.
pub open spec fn frame_version(f: JsonlFrame) -> Seq<char> {
    match f {
        JsonlFrame::Request { version, .. } => version@,
        JsonlFrame::Event { version, .. } => version@,
        JsonlFrame::Result { version, .. } => version@,
        JsonlFrame::Error { version, .. } => version@,
        JsonlFrame::Cancel { version, .. } => version@,
        JsonlFrame::CancelAck { version, .. } => version@,
    }
}

pub open spec fn frame_version_verdict(f: JsonlFrame) -> Verdict {
    if frame_version(f) == PROTOCOL_VERSION_V1@ {
        None
    } else {
        Some((ContractErrorCode::UnsupportedVersion, "frame version is not sentia.v1"@))
    }
}

impl JsonlFrame {
    /// Accepts a frame of protocol version v1 only.
    pub fn validate_version(&self) -> (r: Result<(), ContractError>)
        ensures
            reports(r, frame_version_verdict(*self)),
    {
        let version = match self {
            JsonlFrame::Request { version, .. } => version,
            JsonlFrame::Event { version, .. } => version,
            JsonlFrame::Result { version, .. } => version,
            JsonlFrame::Error { version, .. } => version,
            JsonlFrame::Cancel { version, .. } => version,
            JsonlFrame::CancelAck { version, .. } => version,
        };
        if str_eq(version.as_str(), PROTOCOL_VERSION_V1) {
            Ok(())
        } else {
            Err(fail(ContractErrorCode::UnsupportedVersion, "frame version is not sentia.v1"))
        }
    }
}

} // verus!
