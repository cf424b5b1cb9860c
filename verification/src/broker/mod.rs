//! The local inference broker: its wire protocol, its configuration, the
//! shared admission queue, the reading of the local backend's answers, and
//! the decisions of each client connection.
pub mod config;
pub mod llama;
pub mod protocol;
pub mod queue;
pub mod server;
