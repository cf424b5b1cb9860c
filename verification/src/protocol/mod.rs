//! Versioned contracts shared by the router, the brokers and their clients.
pub mod bounded;
pub mod errors;
pub mod evidence;
pub mod integration;
pub mod metrics;
pub mod order;
pub mod provider;
pub mod router;
pub mod socket;
pub mod tools;
pub mod transactions;

pub use bounded::{BoundedString, BoundedStringError, BoundedVec, BoundedVecError};
pub use errors::{ContractError, ContractErrorCode};
