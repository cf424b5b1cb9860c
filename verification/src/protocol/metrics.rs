//! Metric samples that accompany router results.
//!
//! A sample's value is a double in the wire format; the library carries it
//! as the IEEE-754 bit pattern (`f64::to_bits`), which it never interprets.
use super::bounded::{BoundedString, BoundedVec};
use vstd::prelude::*;

verus! {

pub type MetricName = BoundedString<64>;

#[derive(Debug, Clone, Copy, PartialEq, Eq, Structural)]
pub enum MetricUnit {
    Count,
    Milliseconds,
    Bytes,
    Percent,
}

#[derive(Debug, Clone, PartialEq, Eq)]
pub struct MetricSample {
    pub name: MetricName,
    pub unit: MetricUnit,
    /// The bit pattern of the sampled double.
    pub value_bits: u64,
    pub observed_at_ms: u64,
    pub component: Option<String>,
}

#[derive(Debug, Clone, PartialEq, Eq)]
pub struct RouterMetrics {
    pub request_id: BoundedString<64>,
    pub queue_depth: u32,
    /// The bit pattern of the local latency in milliseconds, a double.
    pub local_latency_ms_bits: Option<u64>,
    /// The bit pattern of the remote latency in milliseconds, a double.
    pub remote_latency_ms_bits: Option<u64>,
    pub fallback_count: u32,
    pub cancellation_count: u32,
    pub payload_input_bytes: u32,
    pub payload_output_bytes: u32,
    pub samples: BoundedVec<MetricSample, 128>,
}

} // verus!
