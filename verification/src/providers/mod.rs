//! The remote provider worker: its typed protocol, the rules for reading
//! provider answers, the destination allowlist and the worker's command loop.
pub mod adapter;
pub mod error;
pub mod integration;
pub mod protocol;
pub mod request;
pub mod transport;
pub mod worker;
