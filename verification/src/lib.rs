//! Verified core of the Sentia system services: protocol contracts, health
//! sampling, the local inference broker, the privileged broker, the remote
//! provider worker and the documentation retrieval index.
use vstd::prelude::*;

pub mod broker;
pub mod client;
pub mod health;
pub mod json;
pub mod kv;
pub mod privileged;
pub mod protocol;
pub mod providers;
pub mod retrieval;
pub mod text;

verus! {

} // verus!
