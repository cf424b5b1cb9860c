//! The broker's configuration and its limits.
use crate::protocol::router::{INFERENCE_SOCKET_PATH_V1, LOCAL_BROKER_SOCKET_PATH_V1};
use crate::text::owned;
use vstd::prelude::*;

verus! {

/// The broker configuration; socket paths are held as text.
#[derive(Debug, Clone, PartialEq, Eq)]
pub struct BrokerConfig {
    pub version: u32,
    pub listen_socket: String,
    pub backend_socket: String,
    pub backend_model: String,
    pub minimum_peer_uid: u32,
    pub maximum_peer_uid: u32,
    pub max_active: usize,
    pub max_global_queue: usize,
    pub max_queue_per_uid: usize,
    pub max_request_bytes: usize,
    pub max_messages: usize,
    pub max_prompt_bytes: usize,
    pub max_generation_tokens: u32,
    pub backend_connect_timeout_ms: u64,
    pub backend_request_timeout_ms: u64,
}

impl Default for BrokerConfig {
    fn default() -> (r: Self)
        ensures
            r.version == 1,
            r.listen_socket@ == LOCAL_BROKER_SOCKET_PATH_V1@,
            r.backend_socket@ == INFERENCE_SOCKET_PATH_V1@,
            r.backend_model@ == "sentia-local"@,
            r.minimum_peer_uid == 1000,
            r.maximum_peer_uid == 60_000,
            r.max_active == 1,
            r.max_global_queue == 16,
            r.max_queue_per_uid == 2,
            r.max_request_bytes == 1024 * 1024,
            r.max_messages == 64,
            r.max_prompt_bytes == 512 * 1024,
            r.max_generation_tokens == 2048,
            r.backend_connect_timeout_ms == 30_000,
            r.backend_request_timeout_ms == 180_000,
    {
        BrokerConfig {
            version: 1,
            listen_socket: owned(LOCAL_BROKER_SOCKET_PATH_V1),
            backend_socket: owned(INFERENCE_SOCKET_PATH_V1),
            backend_model: owned("sentia-local"),
            minimum_peer_uid: 1000,
            maximum_peer_uid: 60_000,
            max_active: 1,
            max_global_queue: 16,
            max_queue_per_uid: 2,
            max_request_bytes: 1024 * 1024,
            max_messages: 64,
            max_prompt_bytes: 512 * 1024,
            max_generation_tokens: 2048,
            backend_connect_timeout_ms: 30_000,
            backend_request_timeout_ms: 180_000,
        }
    }
}

/// The limits a configuration must keep.
pub open spec fn limits_valid(c: BrokerConfig) -> bool {
    &&& c.version == 1
    &&& c.minimum_peer_uid != 0
    &&& c.maximum_peer_uid >= c.minimum_peer_uid
    &&& 1 <= c.max_active <= 4
    &&& c.max_global_queue != 0
    &&& 1 <= c.max_queue_per_uid <= c.max_global_queue
    &&& 1 <= c.max_request_bytes <= 8 * 1024 * 1024
    &&& 1 <= c.max_messages <= 256
    &&& c.max_prompt_bytes != 0
    &&& 1 <= c.max_generation_tokens <= 8192
}

pub open spec fn invalid_limits_message() -> Seq<char> {
    "local broker configuration limits are invalid"@
}

impl BrokerConfig {
    /// Refuses a configuration whose limits are out of range.
    pub fn validate(&self) -> (r: Result<(), String>)
        ensures
            r is Ok <==> limits_valid(*self),
            r matches Err(m) ==> m@ == invalid_limits_message(),
    {
        if self.version != 1 || self.minimum_peer_uid == 0 || self.maximum_peer_uid
            < self.minimum_peer_uid || self.max_active == 0 || self.max_active > 4
            || self.max_global_queue == 0 || self.max_queue_per_uid == 0 || self.max_queue_per_uid
            > self.max_global_queue || self.max_request_bytes == 0 || self.max_request_bytes > 8
            * 1024 * 1024 || self.max_messages == 0 || self.max_messages > 256
            || self.max_prompt_bytes == 0 || self.max_generation_tokens == 0
            || self.max_generation_tokens > 8192 {
            return Err(owned("local broker configuration limits are invalid"));
        }
        Ok(())
    }

    /// How long to wait for the backend to accept a connection, in ms.
    pub fn connect_timeout(&self) -> (r: u64)
        ensures
            r == self.backend_connect_timeout_ms,
    {
        self.backend_connect_timeout_ms
    }

    /// How long one request to the backend may take, in ms.
    pub fn request_timeout(&self) -> (r: u64)
        ensures
            r == self.backend_request_timeout_ms,
    {
        self.backend_request_timeout_ms
    }
}

} // verus!
