//! Cross-endpoint consistency and latency probing for beacon-node APIs.
//!
//! The same request is sent to several nodes; this library samples the
//! request parameters, reduces the per-endpoint results of one run to a
//! median latency and a verdict on whether the answers agree, and drives the
//! ordered pipeline of probes.

pub mod order;
pub mod latency;
pub mod types;
pub mod compare;
pub mod sampler;
pub mod endpoints;
pub mod api_checker;
pub mod metrics;
