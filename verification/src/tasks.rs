use vstd::prelude::*;
use crate::config::{ApiConfig, HttpMethod};
use crate::is_success_status;

verus! {

/// The data recorded for one monitored API call.
#[derive(Debug, Clone)]
pub struct MonitoringData {
    /// The URL that was called.
    pub api_url: String,
    /// "OK" for a success status, "ERROR" otherwise.
    pub status: String,
    /// The response time in milliseconds.
    pub response_time: u64,
    /// The status code, absent when the transport failed.
    pub status_code: Option<u16>,
    /// The method the call used.
    pub method: HttpMethod,
}

/// The kinds of records the monitoring store's plain namespace holds.
pub enum MonitoringDataType {
    /// A single-step monitoring observation.
    Task,
}

/// Monitors one endpoint with a single probe per pass. The surrounding
/// runtime performs the send; the classification of what came back is
/// decided here.
pub struct Task {
    /// The endpoint to probe.
    pub api_config: ApiConfig,
}

/// What one send attempt produced, as the transport reports it: a completed
/// HTTP exchange with its status code, or a transport-level failure (DNS,
/// connect, timeout). Both carry the elapsed time in milliseconds.
#[derive(Debug, Clone, Copy, PartialEq, Eq, Structural)]
pub enum SendResult {
    Response { status_code: u16, duration_ms: u64 },
    TransportFailure { duration_ms: u64 },
}

/// Whether a step's probe counts as a success: only a completed exchange
/// with a status in 200..=299.
pub open spec fn send_succeeded(outcome: SendResult) -> bool {
    match outcome {
        SendResult::Response { status_code, .. } => is_success_status(status_code),
        SendResult::TransportFailure { .. } => false,
    }
}

impl Task {
    /// The step's descriptive name.
    pub fn describe(&self) -> (r: String)
        ensures
            r@ == "Task for "@ + self.api_config.name@,
    {
        String::from_str("Task for ").concat(self.api_config.name.as_str())
    }

    /// Status monitoring carries no response-time threshold.
    pub fn response_time_threshold(&self) -> (r: Option<u64>)
        ensures
            r is None,
    {
        None
    }

    /// The execution-order key; a task without one runs last.
    pub fn get_task_order(&self) -> (r: usize)
        ensures
            r == if self.api_config.task_order is Some {
                self.api_config.task_order.unwrap() as int
            } else {
                usize::MAX as int
            },
    {
        match self.api_config.task_order {
            Some(order) => order,
            None => usize::MAX,
        }
    }

    /// Classifies what one probe of this step produced. A status in the
    /// success range yields "OK"; any other status yields "ERROR" with the
    /// code still recorded; a transport failure yields "ERROR" without a
    /// code. Exactly one record results in every case.
    pub fn classify(&self, outcome: SendResult) -> (r: MonitoringData)
        ensures
            r.api_url@ == self.api_config.url@,
            r.method == self.api_config.method,
            match outcome {
                SendResult::Response { status_code, duration_ms } => {
                    &&& r.response_time == duration_ms
                    &&& r.status_code == Some(status_code)
                    &&& is_success_status(status_code) ==> r.status@ == "OK"@
                    &&& !is_success_status(status_code) ==> r.status@ == "ERROR"@
                },
                SendResult::TransportFailure { duration_ms } => {
                    &&& r.response_time == duration_ms
                    &&& r.status_code is None
                    &&& r.status@ == "ERROR"@
                },
            },
    {
        match outcome {
            SendResult::Response { status_code, duration_ms } => {
                let status = if crate::status_is_success(status_code) {
                    String::from_str("OK")
                } else {
                    String::from_str("ERROR")
                };
                MonitoringData {
                    api_url: self.api_config.url.clone(),
                    status,
                    response_time: duration_ms,
                    status_code: Some(status_code),
                    method: self.api_config.method,
                }
            },
            SendResult::TransportFailure { duration_ms } => {
                MonitoringData {
                    api_url: self.api_config.url.clone(),
                    status: String::from_str("ERROR"),
                    response_time: duration_ms,
                    status_code: None,
                    method: self.api_config.method,
                }
            },
        }
    }

    /// What the step reports upward: success exactly when the probe
    /// completed with a success status.
    pub fn step_succeeded(&self, outcome: SendResult) -> (r: bool)
        ensures
            r == send_succeeded(outcome),
    {
        match outcome {
            SendResult::Response { status_code, .. } => crate::status_is_success(status_code),
            SendResult::TransportFailure { .. } => false,
        }
    }
}

} // verus!
