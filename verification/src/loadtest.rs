use vstd::prelude::*;
use crate::config::{ApiConfig, HttpMethod, LoadTestConfig};
use crate::stats::{
    analyze_results, count_code, count_successes, dist_count, dist_total, median_of,
    percentile95_of, sorted_durations_of, sum_bytes, sum_durations, throughput_milli,
    unique_codes, CampaignOutcome, RequestOutcome,
};

verus! {

/// Seconds a campaign may run when no duration is configured.
pub const DEFAULT_MAX_DURATION_SECS: u64 = 1;

/// Seconds between two attempts of a failed campaign.
pub const RETRY_BACKOFF_SECS: u64 = 5;

/// Runs progressive load tests against one configured endpoint and summarizes
/// their traffic. The surrounding runtime performs the network sends and the
/// tick waits; every scheduling and aggregation decision is made here.
#[derive(Debug, Clone)]
pub struct LoadTest {
    /// The endpoint under test.
    pub api_config: ApiConfig,
    /// The parameters of the campaign.
    pub load_test_config: LoadTestConfig,
}

/// The aggregated results of one load-test campaign.
#[derive(Debug, Clone)]
pub struct LoadTestMonitoringData {
    pub api_url: String,
    /// How many attempts produced an HTTP response. Attempts that failed at
    /// the transport level are not counted here.
    pub total_requests: usize,
    pub success_count: usize,
    pub failure_count: usize,
    pub median_response_time_ms: u128,
    pub average_response_time_ms: u128,
    pub min_response_time_ms: u128,
    pub max_response_time_ms: u128,
    /// How often each status code was observed.
    pub status_code_distribution: Vec<(u16, usize)>,
    pub percentile_95th_response_time_ms: u128,
    /// Throughput in thousandths of a request per second, measured against
    /// cumulative response-time mass rather than wall-clock time.
    pub requests_per_second_milli: u128,
    pub average_bytes_per_response: u128,
    pub method: HttpMethod,
}

/// The campaign parameters with every default applied.
#[derive(Debug, Clone, Copy, PartialEq, Eq, Structural)]
pub struct CampaignPlan {
    /// The load the ramp starts from.
    pub initial_load: usize,
    /// The ceiling the load ramps toward; unbounded configurations get the
    /// largest representable count.
    pub max_load: usize,
    /// How many users each tick adds at most.
    pub spawn_rate: usize,
    /// How many additional attempts a failed campaign is granted.
    pub max_retries: usize,
    /// The campaign's hard time budget in seconds.
    pub max_duration_secs: u64,
}

/// Resolves the optional campaign parameters: one initial user, an unbounded
/// ceiling, one user per tick, no retries and a one-second budget unless
/// configured otherwise.
pub fn resolve_campaign(cfg: &LoadTestConfig) -> (r: CampaignPlan)
    ensures
        r.initial_load == if cfg.initial_load is Some {
            cfg.initial_load.unwrap() as int
        } else {
            1int
        },
        r.max_load == if cfg.max_load is Some {
            cfg.max_load.unwrap() as int
        } else {
            usize::MAX as int
        },
        r.spawn_rate == if cfg.spawn_rate is Some {
            cfg.spawn_rate.unwrap() as int
        } else {
            1int
        },
        r.max_retries == if cfg.retry_count is Some {
            cfg.retry_count.unwrap() as int
        } else {
            0int
        },
        r.max_duration_secs == if cfg.max_duration_secs is Some {
            cfg.max_duration_secs.unwrap() as int
        } else {
            DEFAULT_MAX_DURATION_SECS as int
        },
{
    let initial_load = match cfg.initial_load {
        Some(v) => v,
        None => 1,
    };
    let max_load = match cfg.max_load {
        Some(v) => v,
        None => usize::MAX,
    };
    let spawn_rate = match cfg.spawn_rate {
        Some(v) => v,
        None => 1,
    };
    let max_retries = match cfg.retry_count {
        Some(v) => v,
        None => 0,
    };
    let max_duration_secs = match cfg.max_duration_secs {
        Some(v) => v as u64,
        None => DEFAULT_MAX_DURATION_SECS,
    };
    CampaignPlan { initial_load, max_load, spawn_rate, max_retries, max_duration_secs }
}

/// How many users one tick spawns: the spawn rate, but never past the load
/// ceiling, and none once the ceiling is reached.
pub open spec fn new_users_spec(current_load: int, max_load: int, spawn_rate: int) -> int {
    if current_load >= max_load {
        0
    } else if spawn_rate <= max_load - current_load {
        spawn_rate
    } else {
        max_load - current_load
    }
}

/// The load after a given number of ramp ticks.
pub open spec fn load_after_ticks(initial: int, max_load: int, spawn_rate: int, t: nat) -> int
    decreases t,
{
    if t == 0 {
        initial
    } else {
        let prev = load_after_ticks(initial, max_load, spawn_rate, (t - 1) as nat);
        prev + new_users_spec(prev, max_load, spawn_rate)
    }
}

/// The load never exceeds the ceiling: starting at or below `max_load`, any
/// number of ramp ticks leaves it at or below `max_load`, and it never
/// shrinks.
pub proof fn lemma_load_never_exceeds_max(initial: int, max_load: int, spawn_rate: int, t: nat)
    requires
        initial <= max_load,
        spawn_rate >= 0,
    ensures
        load_after_ticks(initial, max_load, spawn_rate, t) <= max_load,
        load_after_ticks(initial, max_load, spawn_rate, t) >= initial,
    decreases t,
{
    if t > 0 {
        lemma_load_never_exceeds_max(initial, max_load, spawn_rate, (t - 1) as nat);
    }
}

/// One tick of the ramp: how many users to spawn now, and the load that
/// results. The new load never exceeds the ceiling when the old one did not.
pub fn ramp_tick(current_load: usize, max_load: usize, spawn_rate: usize) -> (r: (usize, usize))
    ensures
        r.0 == new_users_spec(current_load as int, max_load as int, spawn_rate as int),
        r.1 == current_load + r.0,
        current_load <= max_load ==> r.1 <= max_load,
        r.1 >= current_load,
{
    if current_load >= max_load {
        (0, current_load)
    } else {
        let remaining = max_load - current_load;
        let new_users = if spawn_rate <= remaining {
            spawn_rate
        } else {
            remaining
        };
        (new_users, current_load + new_users)
    }
}

/// Whether the ramp loop runs another tick: only while the load is below the
/// ceiling and the elapsed time is within the budget.
pub fn campaign_should_continue(
    current_load: usize,
    max_load: usize,
    elapsed_ms: u64,
    budget_ms: u64,
) -> (r: bool)
    ensures
        r == (current_load < max_load && elapsed_ms < budget_ms),
{
    current_load < max_load && elapsed_ms < budget_ms
}

/// What the retry policy does once an attempt has finished.
#[derive(Debug, Clone, Copy, PartialEq, Eq, Structural)]
pub enum AttemptDisposition {
    /// The campaign completed; its metrics are recorded.
    Complete,
    /// The campaign failed and another attempt follows after the fixed
    /// backoff.
    RetryAfterBackoff,
    /// The campaign failed and the retry budget is spent: the failure is
    /// terminal.
    TerminalFailure,
}

/// The retry decision for the 0-based attempt index: a successful attempt
/// completes the campaign; a failed one is retried while attempts remain,
/// and is terminal otherwise.
pub open spec fn spec_attempt_disposition(
    attempt: int,
    max_retries: int,
    succeeded: bool,
) -> AttemptDisposition {
    if succeeded {
        AttemptDisposition::Complete
    } else if attempt < max_retries {
        AttemptDisposition::RetryAfterBackoff
    } else {
        AttemptDisposition::TerminalFailure
    }
}

/// Decides what follows the attempt with the given 0-based index.
pub fn attempt_disposition(attempt: usize, max_retries: usize, succeeded: bool) -> (r:
    AttemptDisposition)
    ensures
        r == spec_attempt_disposition(attempt as int, max_retries as int, succeeded),
{
    if succeeded {
        AttemptDisposition::Complete
    } else if attempt < max_retries {
        AttemptDisposition::RetryAfterBackoff
    } else {
        AttemptDisposition::TerminalFailure
    }
}

/// A campaign that fails every attempt is tried exactly `max_retries + 1`
/// times: each attempt before index `max_retries` asks for another try after
/// the backoff, and the attempt at index `max_retries` is terminal.
pub proof fn lemma_persistent_failure_attempts(max_retries: int)
    ensures
        forall|a: int|
            0 <= a < max_retries ==> spec_attempt_disposition(a, max_retries, false)
                == AttemptDisposition::RetryAfterBackoff,
        spec_attempt_disposition(max_retries, max_retries, false)
            == AttemptDisposition::TerminalFailure,
{
}

impl LoadTest {
    /// The descriptive name of this load test.
    pub fn describe(&self) -> (r: String)
        ensures
            r@ == "LoadTest for "@ + self.api_config.name@,
    {
        String::from_str("LoadTest for ").concat(self.api_config.name.as_str())
    }

    /// Load tests carry no response-time threshold.
    pub fn response_time_threshold(&self) -> (r: Option<u64>)
        ensures
            r is None,
    {
        None
    }

    /// The execution-order key; a load test without one runs last.
    pub fn get_task_order(&self) -> (r: usize)
        ensures
            r == if self.api_config.task_order is Some {
                self.api_config.task_order.unwrap() as int
            } else {
                usize::MAX as int
            },
    {
        match self.api_config.task_order {
            Some(order) => order,
            None => usize::MAX,
        }
    }
}

/// Builds the campaign's metrics record from its raw outcomes: attempts that
/// failed before an HTTP response arrived are dropped, and the statistics of
/// the remaining outcomes are computed and tagged with the endpoint.
pub fn build_load_test_data(
    api_url: String,
    method: HttpMethod,
    outcomes: &Vec<CampaignOutcome>,
) -> (r: LoadTestMonitoringData)
    ensures
        ({
            let completed = crate::stats::completed_outcomes(outcomes@);
            &&& r.api_url@ == api_url@
            &&& r.method == method
            &&& r.total_requests == completed.len()
            &&& r.success_count == count_successes(completed)
            &&& r.failure_count == completed.len() - count_successes(completed)
            &&& r.min_response_time_ms == if completed.len() == 0 {
                0int
            } else {
                sorted_durations_of(completed)[0] as int
            }
            &&& r.max_response_time_ms == if completed.len() == 0 {
                0int
            } else {
                sorted_durations_of(completed).last() as int
            }
            &&& r.average_response_time_ms == if completed.len() == 0 {
                0int
            } else {
                sum_durations(completed) / completed.len() as int
            }
            &&& r.median_response_time_ms == median_of(sorted_durations_of(completed))
            &&& r.percentile_95th_response_time_ms == percentile95_of(
                sorted_durations_of(completed),
            )
            &&& r.requests_per_second_milli == throughput_milli(
                completed.len() as int,
                sum_durations(completed),
            )
            &&& r.average_bytes_per_response == if completed.len() == 0 {
                0int
            } else {
                sum_bytes(completed) / completed.len() as int
            }
            &&& unique_codes(r.status_code_distribution@)
            &&& forall|c: u16|
                #[trigger] dist_count(r.status_code_distribution@, c) == count_code(completed, c)
            &&& dist_total(r.status_code_distribution@) == completed.len()
        }),
{
    let filtered = crate::stats::filter_outcomes(outcomes);
    let stats = analyze_results(&filtered);
    LoadTestMonitoringData {
        api_url,
        total_requests: filtered.len(),
        success_count: stats.success_count,
        failure_count: stats.failure_count,
        median_response_time_ms: stats.median_response_time_ms,
        average_response_time_ms: stats.average_response_time_ms,
        min_response_time_ms: stats.min_response_time_ms,
        max_response_time_ms: stats.max_response_time_ms,
        status_code_distribution: stats.status_code_distribution,
        percentile_95th_response_time_ms: stats.percentile_95th_response_time_ms,
        requests_per_second_milli: stats.requests_per_second_milli,
        average_bytes_per_response: stats.average_bytes_per_response,
        method,
    }
}

} // verus!
