//! Host health sampling: `/proc` parsers, alert hysteresis and the sampling
//! interval policy.
pub mod procfs;
pub mod schema;
pub mod collector;
pub mod alert;
pub mod monitor;
pub mod cli;
