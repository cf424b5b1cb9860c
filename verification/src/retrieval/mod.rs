//! The documentation retrieval index: source configuration, document
//! collection rules, and the safe full-text query form.

pub mod error;
pub mod model;
pub mod path_guard;


pub use error::RetrievalError;
pub mod cli;
pub mod config;
pub use config::{RetrievalConfig, SourceConfig, SourceKindConfig};
pub mod indexer;
pub mod query;
