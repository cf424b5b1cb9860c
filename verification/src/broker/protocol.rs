//! The broker's JSONL protocol, as plain values.
use crate::protocol::errors::ContractError;
use crate::protocol::provider::{ProviderErrorCode, ProviderHealth};
use vstd::prelude::*;

verus! {

pub const BROKER_PROTOCOL_VERSION: &'static str = "sentia.v1";

pub const MAX_BROKER_FRAME_BYTES: usize = 1024 * 1024;

#[derive(Debug, Clone, PartialEq, Eq)]
pub struct BrokerToolCall {
    pub id: String,
    pub name: String,
    pub arguments: String,
}

#[derive(Debug, Clone, PartialEq, Eq)]
pub struct BrokerMessage {
    pub role: String,
    pub content: String,
    pub name: Option<String>,
    pub tool_call_id: Option<String>,
    pub tool_calls: Vec<BrokerToolCall>,
}

/// A tool the model may call; its JSON-schema parameters are held as their
/// compact JSON text.
#[derive(Debug, Clone, PartialEq, Eq)]
pub struct BrokerTool {
    pub name: String,
    pub description: String,
    pub parameters: String,
}

#[derive(Debug, Clone, PartialEq, Eq)]
pub enum BrokerRequest {
    Chat {
        version: String,
        request_id: String,
        messages: Vec<BrokerMessage>,
        tools: Vec<BrokerTool>,
        max_tokens: u32,
    },
    Health { version: String, request_id: String },
    Cancel { version: String, request_id: String, target_request_id: String },
}

#[derive(Debug, Clone, PartialEq)]
pub enum BrokerEvent {
    Queued { version: String, request_id: String, position: u32 },
    Progress { version: String, request_id: String, state: String, detail: String },
    Delta { version: String, request_id: String, content: String },
    ToolCalls { version: String, request_id: String, calls: Vec<BrokerToolCall> },
    Complete { version: String, request_id: String, finish_reason: String },
    Health { version: String, request_id: String, health: ProviderHealth, detail: String },
    Cancelled { version: String, request_id: String, target_request_id: String },
    Error {
        version: String,
        request_id: String,
        error: ContractError,
        provider_error: ProviderErrorCode,
    },
}

} // verus!
