//! Continuously probes configured HTTP endpoints — workflows of ordered API
//! steps, some under progressive load — and aggregates the outcomes into
//! health and performance telemetry. This crate holds the decision and
//! aggregation core: step ordering, the load-test ramp and retry policy, the
//! outcome statistics, and the shared monitoring store. The surrounding
//! runtime performs the sends, the waits and the serving.

pub mod appstate;
pub mod config;
pub mod factory;
pub mod interpolate;
pub mod loadtest;
pub mod request;
pub mod stats;
pub mod tasks;
pub mod trigger;

use vstd::prelude::*;

verus! {

/// True exactly when an HTTP status code lies in the conventional success
/// range 200..=299.
pub open spec fn is_success_status(code: u16) -> bool {
    200 <= code < 300
}

/// Classifies one HTTP status code as a success or a failure.
pub fn status_is_success(code: u16) -> (r: bool)
    ensures
        r == is_success_status(code),
{
    200 <= code && code < 300
}

} // verus!
