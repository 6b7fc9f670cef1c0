use workflow_monitor::appstate::AppState;
use workflow_monitor::config::{
    http_client_config_from, validate_settings, ApiConfig, ConfigError, HttpClientConfig,
    HttpMethod, LoadTestConfig, Settings, Workflow,
};
use workflow_monitor::factory::{create_monitor_tasks, group_tasks_by_order, MonitorTask};
use workflow_monitor::interpolate::{interpolate_config, interpolate_string, EnvBindings};
use workflow_monitor::loadtest::{
    attempt_disposition, build_load_test_data, campaign_should_continue, ramp_tick,
    resolve_campaign, AttemptDisposition, LoadTest, DEFAULT_MAX_DURATION_SECS, RETRY_BACKOFF_SECS,
};
use workflow_monitor::request::{build_request_plan, RequestBuildError};
use workflow_monitor::stats::{analyze_results, CampaignOutcome, RequestOutcome};
use workflow_monitor::tasks::{SendResult, Task};
use workflow_monitor::trigger::{filter_workflows, WebhookPayload};

fn api(name: &str, order: Option<usize>, url: &str) -> ApiConfig {
    ApiConfig {
        name: name.to_string(),
        task_order: order,
        url: url.to_string(),
        headers: Vec::new(),
        expected_field: "id".to_string(),
        response_time_threshold: 2000,
        method: HttpMethod::GET,
        body: None,
        body_file: None,
        load_test: None,
        load_test_config: None,
    }
}

fn outcome(status: u16, ms: u64, bytes: usize) -> RequestOutcome {
    RequestOutcome { status_code: status, duration_ms: ms, bytes }
}

fn count_of(dist: &[(u16, usize)], code: u16) -> usize {
    dist.iter().find(|e| e.0 == code).map(|e| e.1).unwrap_or(0)
}

#[test]
fn empty_batch_yields_zeros() {
    let stats = analyze_results(&Vec::new());
    assert_eq!(stats.success_count, 0);
    assert_eq!(stats.failure_count, 0);
    assert_eq!(stats.min_response_time_ms, 0);
    assert_eq!(stats.max_response_time_ms, 0);
    assert_eq!(stats.median_response_time_ms, 0);
    assert_eq!(stats.average_response_time_ms, 0);
    assert_eq!(stats.percentile_95th_response_time_ms, 0);
    assert_eq!(stats.requests_per_second_milli, 0);
    assert_eq!(stats.average_bytes_per_response, 0);
    assert!(stats.status_code_distribution.is_empty());
}

#[test]
fn median_even_batch_averages_middles() {
    // Sorted durations: 10, 20, 40, 70 -> median (20 + 40) / 2 = 30.
    let results = vec![
        outcome(200, 40, 0),
        outcome(200, 10, 0),
        outcome(200, 70, 0),
        outcome(200, 20, 0),
    ];
    let stats = analyze_results(&results);
    assert_eq!(stats.median_response_time_ms, 30);
    assert_eq!(stats.min_response_time_ms, 10);
    assert_eq!(stats.max_response_time_ms, 70);
}

#[test]
fn median_odd_batch_takes_middle() {
    // Sorted durations: 5, 10, 30, 50, 90 -> median 30.
    let results = vec![
        outcome(200, 50, 0),
        outcome(200, 5, 0),
        outcome(200, 30, 0),
        outcome(200, 90, 0),
        outcome(200, 10, 0),
    ];
    let stats = analyze_results(&results);
    assert_eq!(stats.median_response_time_ms, 30);
}

#[test]
fn percentile_95_of_twenty_is_nineteenth_smallest() {
    // Durations 1..=20; index = ceil(0.95 * 20) - 1 = 18, the value 19.
    let mut results = Vec::new();
    for ms in 1..=20u64 {
        results.push(outcome(200, ms, 0));
    }
    let stats = analyze_results(&results);
    assert_eq!(stats.percentile_95th_response_time_ms, 19);
}

#[test]
fn aggregate_bounds_hold_on_sample() {
    let results = vec![
        outcome(200, 12, 0),
        outcome(500, 44, 0),
        outcome(200, 7, 0),
        outcome(404, 91, 0),
    ];
    let stats = analyze_results(&results);
    assert!(stats.min_response_time_ms <= stats.median_response_time_ms);
    assert!(stats.median_response_time_ms <= stats.max_response_time_ms);
    assert!(stats.min_response_time_ms <= stats.average_response_time_ms);
    assert!(stats.average_response_time_ms <= stats.max_response_time_ms);
}

#[test]
fn histogram_counts_sum_to_batch_size() {
    let results = vec![
        outcome(200, 1, 10),
        outcome(200, 2, 10),
        outcome(404, 3, 10),
        outcome(500, 4, 10),
        outcome(200, 5, 10),
    ];
    let stats = analyze_results(&results);
    let total: usize = stats.status_code_distribution.iter().map(|e| e.1).sum();
    assert_eq!(total, results.len());
    assert_eq!(count_of(&stats.status_code_distribution, 200), 3);
    assert_eq!(count_of(&stats.status_code_distribution, 404), 1);
    assert_eq!(count_of(&stats.status_code_distribution, 500), 1);
    assert_eq!(stats.success_count, 3);
    assert_eq!(stats.failure_count, 2);
}

#[test]
fn throughput_measures_response_time_mass() {
    // Two requests, 250 ms each: 2 / 0.5 s = 4 requests per second,
    // i.e. 4000 thousandths.
    let results = vec![outcome(200, 250, 100), outcome(200, 250, 300)];
    let stats = analyze_results(&results);
    assert_eq!(stats.requests_per_second_milli, 4000);
    assert_eq!(stats.average_bytes_per_response, 200);
    assert_eq!(stats.average_response_time_ms, 250);
}

#[test]
fn campaign_filtering_drops_failures_from_totals() {
    // Two completed exchanges and two failed attempts: the metrics count
    // only the completed ones.
    let outcomes = vec![
        CampaignOutcome::Response(outcome(200, 10, 50)),
        CampaignOutcome::Failure("connection reset".to_string()),
        CampaignOutcome::Response(outcome(503, 30, 10)),
        CampaignOutcome::Failure("worker crashed".to_string()),
    ];
    let data = build_load_test_data("http://svc/a".to_string(), HttpMethod::POST, &outcomes);
    assert_eq!(data.total_requests, 2);
    assert_eq!(data.success_count, 1);
    assert_eq!(data.failure_count, 1);
    let total: usize = data.status_code_distribution.iter().map(|e| e.1).sum();
    assert_eq!(total, 2);
    assert_eq!(data.api_url, "http://svc/a");
    assert!(matches!(data.method, HttpMethod::POST));
}

#[test]
fn empty_campaign_yields_empty_metrics() {
    let data = build_load_test_data("http://svc/a".to_string(), HttpMethod::GET, &Vec::new());
    assert_eq!(data.total_requests, 0);
    assert_eq!(data.success_count, 0);
    assert_eq!(data.median_response_time_ms, 0);
    assert_eq!(data.percentile_95th_response_time_ms, 0);
}

#[test]
fn ramp_reaches_ceiling_in_three_loads() {
    // initial_load=1, max_load=3, spawn_rate=1: the load passes through
    // 1, 2, 3 and never exceeds 3; the budget of 5 s is not the stopper.
    let cfg = LoadTestConfig {
        initial_load: Some(1),
        max_load: Some(3),
        spawn_rate: Some(1),
        retry_count: None,
        max_duration_secs: Some(5),
    };
    let plan = resolve_campaign(&cfg);
    assert_eq!(plan.max_duration_secs, 5);
    let mut load = plan.initial_load;
    let mut loads_seen = vec![load];
    let mut ticks = 0usize;
    while campaign_should_continue(load, plan.max_load, 0, plan.max_duration_secs * 1000) {
        let (new_users, new_load) = ramp_tick(load, plan.max_load, plan.spawn_rate);
        assert_eq!(new_users, 1);
        load = new_load;
        loads_seen.push(load);
        assert!(load <= plan.max_load);
        ticks += 1;
        assert!(ticks <= 10);
    }
    assert_eq!(loads_seen, vec![1, 2, 3]);
    assert_eq!(load, 3);
}

#[test]
fn ramp_spawns_nothing_at_or_past_ceiling() {
    // A campaign whose initial load already meets the ceiling runs no ticks.
    assert!(!campaign_should_continue(3, 3, 0, 1000));
    assert!(!campaign_should_continue(5, 3, 0, 1000));
    let (new_users, new_load) = ramp_tick(3, 3, 2);
    assert_eq!(new_users, 0);
    assert_eq!(new_load, 3);
    // The time budget also stops the ramp.
    assert!(!campaign_should_continue(1, 3, 1000, 1000));
}

#[test]
fn campaign_defaults_apply() {
    let cfg = LoadTestConfig {
        initial_load: None,
        max_load: None,
        spawn_rate: None,
        retry_count: None,
        max_duration_secs: None,
    };
    let plan = resolve_campaign(&cfg);
    assert_eq!(plan.initial_load, 1);
    assert_eq!(plan.max_load, usize::MAX);
    assert_eq!(plan.spawn_rate, 1);
    assert_eq!(plan.max_retries, 0);
    assert_eq!(plan.max_duration_secs, DEFAULT_MAX_DURATION_SECS);
    assert_eq!(RETRY_BACKOFF_SECS, 5);
}

#[test]
fn persistent_failure_attempts_exactly_three_times() {
    // retry_count = 2: attempts 0 and 1 retry, attempt 2 is terminal.
    let max_retries = 2usize;
    let mut attempts = 0usize;
    let mut attempt = 0usize;
    loop {
        attempts += 1;
        match attempt_disposition(attempt, max_retries, false) {
            AttemptDisposition::Complete => panic!("a failed attempt cannot complete"),
            AttemptDisposition::RetryAfterBackoff => attempt += 1,
            AttemptDisposition::TerminalFailure => break,
        }
        assert!(attempts <= 10);
    }
    assert_eq!(attempts, 3);
}

#[test]
fn successful_attempt_completes_immediately() {
    assert!(matches!(attempt_disposition(0, 2, true), AttemptDisposition::Complete));
    assert!(matches!(attempt_disposition(0, 0, false), AttemptDisposition::TerminalFailure));
}

#[test]
fn grouping_orders_buckets_ascending() {
    // Orders [2, 1, 1, none]: bucket 1 holds the two order-1 steps, bucket 2
    // the first step, and the step without an order lands in a last bucket.
    let tasks = vec![
        MonitorTask::Plain(Task { api_config: api("a", Some(2), "http://svc/a") }),
        MonitorTask::Plain(Task { api_config: api("b", Some(1), "http://svc/b") }),
        MonitorTask::Plain(Task { api_config: api("c", Some(1), "http://svc/c") }),
        MonitorTask::Plain(Task { api_config: api("d", None, "http://svc/d") }),
    ];
    let groups = group_tasks_by_order(&tasks);
    assert_eq!(groups.len(), 3);
    assert_eq!(groups[0].order, 1);
    assert_eq!(groups[0].indices, vec![1, 2]);
    assert_eq!(groups[1].order, 2);
    assert_eq!(groups[1].indices, vec![0]);
    assert_eq!(groups[2].order, usize::MAX);
    assert_eq!(groups[2].indices, vec![3]);
}

#[test]
fn monitor_tasks_follow_step_configuration() {
    let mut load_api = api("load", Some(1), "http://svc/load");
    load_api.load_test = Some(true);
    load_api.load_test_config = Some(LoadTestConfig::default());
    let mut skipped_api = api("skipped", Some(1), "http://svc/skipped");
    skipped_api.load_test = Some(true);
    let plain_api = api("plain", Some(2), "http://svc/plain");
    let workflow = Workflow {
        name: "wf".to_string(),
        apis: vec![load_api, skipped_api, plain_api],
    };
    let tasks = create_monitor_tasks(workflow);
    assert_eq!(tasks.len(), 2);
    assert!(matches!(tasks[0], MonitorTask::Load(_)));
    assert!(matches!(tasks[1], MonitorTask::Plain(_)));
    assert_eq!(tasks[0].describe(), "LoadTest for load");
    assert_eq!(tasks[1].describe(), "Task for plain");
    assert_eq!(tasks[0].get_task_order(), 1);
    assert!(tasks[0].response_time_threshold().is_none());
}

#[test]
fn classification_matches_status_ranges() {
    let task = Task { api_config: api("probe", Some(1), "http://svc/probe") };
    let ok = task.classify(SendResult::Response { status_code: 200, duration_ms: 12 });
    assert_eq!(ok.status, "OK");
    assert_eq!(ok.status_code, Some(200));
    assert_eq!(ok.response_time, 12);
    assert_eq!(ok.api_url, "http://svc/probe");
    let err = task.classify(SendResult::Response { status_code: 500, duration_ms: 30 });
    assert_eq!(err.status, "ERROR");
    assert_eq!(err.status_code, Some(500));
    let transport = task.classify(SendResult::TransportFailure { duration_ms: 45 });
    assert_eq!(transport.status, "ERROR");
    assert_eq!(transport.status_code, None);
    assert!(task.step_succeeded(SendResult::Response { status_code: 204, duration_ms: 1 }));
    assert!(!task.step_succeeded(SendResult::Response { status_code: 301, duration_ms: 1 }));
    assert!(!task.step_succeeded(SendResult::TransportFailure { duration_ms: 1 }));
}

#[test]
fn two_steps_yield_two_records_under_one_workflow() {
    // Two order-1 steps, one answering 200 and one answering 500: two
    // records under the workflow's plain bucket, "OK" and "ERROR".
    let workflow_name = "checkout".to_string();
    let ok_task = Task { api_config: api("login", Some(1), "http://svc/login") };
    let err_task = Task { api_config: api("search", Some(1), "http://svc/search") };
    let mut state = AppState::new();
    let ok_data = ok_task.classify(SendResult::Response { status_code: 200, duration_ms: 10 });
    let err_data = err_task.classify(SendResult::Response { status_code: 500, duration_ms: 20 });
    state.upsert_task_metric(&workflow_name, "login".to_string(), ok_data);
    state.upsert_task_metric(&workflow_name, "search".to_string(), err_data);
    let login = state.get_task_metric(&workflow_name, &"login".to_string()).unwrap();
    assert_eq!(login.status, "OK");
    let search = state.get_task_metric(&workflow_name, &"search".to_string()).unwrap();
    assert_eq!(search.status, "ERROR");
}

#[test]
fn store_keeps_distinct_keys_apart() {
    let w1 = "w1".to_string();
    let w2 = "w2".to_string();
    let task = Task { api_config: api("s", Some(1), "http://svc/s") };
    let d1 = task.classify(SendResult::Response { status_code: 200, duration_ms: 1 });
    let d2 = task.classify(SendResult::Response { status_code: 500, duration_ms: 2 });
    let d3 = task.classify(SendResult::TransportFailure { duration_ms: 3 });
    let mut state = AppState::new();
    state.upsert_task_metric(&w1, "s1".to_string(), d1);
    state.upsert_task_metric(&w1, "s2".to_string(), d2);
    state.upsert_task_metric(&w2, "s1".to_string(), d3);
    assert_eq!(state.get_task_metric(&w1, &"s1".to_string()).unwrap().status, "OK");
    assert_eq!(state.get_task_metric(&w1, &"s1".to_string()).unwrap().status_code, Some(200));
    assert_eq!(state.get_task_metric(&w1, &"s2".to_string()).unwrap().status_code, Some(500));
    assert_eq!(state.get_task_metric(&w2, &"s1".to_string()).unwrap().status_code, None);
    assert!(state.get_task_metric(&w2, &"s2".to_string()).is_none());
    // A rewrite replaces the record wholesale.
    let d4 = task.classify(SendResult::Response { status_code: 201, duration_ms: 9 });
    state.upsert_task_metric(&w1, "s1".to_string(), d4);
    assert_eq!(state.get_task_metric(&w1, &"s1".to_string()).unwrap().status_code, Some(201));
}

#[test]
fn load_test_namespace_is_independent() {
    let w = "wf".to_string();
    let data = build_load_test_data(
        "http://svc/x".to_string(),
        HttpMethod::GET,
        &vec![CampaignOutcome::Response(outcome(200, 5, 1))],
    );
    let mut state = AppState::new();
    state.upsert_load_test_metric(&w, "x".to_string(), data);
    assert!(state.get_task_metric(&w, &"x".to_string()).is_none());
    assert_eq!(state.get_load_test_metric(&w, &"x".to_string()).unwrap().total_requests, 1);
}

#[test]
fn session_flag_is_claimed_once() {
    let mut state = AppState::new();
    assert!(!state.is_session_active());
    assert!(state.claim_session());
    assert!(state.is_session_active());
    assert!(!state.claim_session());
    state.finish_session_read();
    assert!(!state.is_session_active());
    assert!(state.claim_session());
}

#[test]
fn request_plan_body_precedence() {
    // A GET carries no body even when one is configured.
    let mut get_api = api("g", None, "http://svc/g");
    get_api.body = Some("inline".to_string());
    let plan = build_request_plan(&get_api, None).unwrap();
    assert!(plan.body.is_none());
    assert_eq!(plan.url, "http://svc/g");
    // A POST takes the inline body when no file is configured.
    let mut post_api = api("p", None, "http://svc/p");
    post_api.method = HttpMethod::POST;
    post_api.body = Some("inline".to_string());
    let plan = build_request_plan(&post_api, None).unwrap();
    assert_eq!(plan.body.as_deref(), Some("inline"));
    // A configured body file wins over the inline body.
    post_api.body_file = Some("payload.json".to_string());
    let plan = build_request_plan(&post_api, Some(Ok("from file".to_string()))).unwrap();
    assert_eq!(plan.body.as_deref(), Some("from file"));
    // An unreadable body file fails the build.
    let err = build_request_plan(&post_api, Some(Err("denied".to_string()))).unwrap_err();
    match err {
        RequestBuildError::BodyFileError { path, message } => {
            assert_eq!(path, "payload.json");
            assert_eq!(message, "denied");
        },
        _ => panic!("expected a body file error"),
    }
}

#[test]
fn invalid_header_fails_the_build() {
    let mut bad_api = api("h", None, "http://svc/h");
    bad_api.headers = vec![
        ("Accept".to_string(), "application/json".to_string()),
        ("bad header".to_string(), "x".to_string()),
    ];
    let err = build_request_plan(&bad_api, None).unwrap_err();
    match &err {
        RequestBuildError::InvalidHeader { key, value } => {
            assert_eq!(key, "bad header");
            assert_eq!(value, "x");
        },
        _ => panic!("expected an invalid header error"),
    }
    assert_eq!(err.message(), "Invalid header: bad header: x");
    // A value with a control character is refused too.
    let mut bad_value = api("v", None, "http://svc/v");
    bad_value.headers = vec![("Accept".to_string(), "a\nb".to_string())];
    assert!(build_request_plan(&bad_value, None).is_err());
    // The same headers with valid syntax pass.
    let mut good = api("k", None, "http://svc/k");
    good.headers = vec![("Accept".to_string(), "application/json".to_string())];
    let plan = build_request_plan(&good, None).unwrap();
    assert_eq!(plan.headers.len(), 1);
    assert_eq!(plan.headers[0].0, "Accept");
}

#[test]
fn test_interpolation_for_token() {
    let env = EnvBindings {
        pairs: vec![
            ("API_URL".to_string(), "https://jsonplaceholder.typicode.com/todos/1".to_string()),
            ("TEST_TOKEN".to_string(), "secret_token".to_string()),
        ],
    };
    let mut settings = Workflow {
        name: "Sample Workflow".to_string(),
        apis: vec![api("Setup Organization", Some(1), "${API_URL}")],
    };
    interpolate_config(&mut settings, &env);
    assert_eq!(settings.apis[0].url, "https://jsonplaceholder.typicode.com/todos/1");
}

#[test]
fn interpolation_leaves_unbound_names_literal() {
    let env = EnvBindings { pairs: vec![("HOST".to_string(), "svc".to_string())] };
    assert_eq!(interpolate_string("http://${HOST}/x", &env), "http://svc/x");
    assert_eq!(interpolate_string("${MISSING}/x", &env), "${MISSING}/x");
    assert_eq!(interpolate_string("${}", &env), "${}");
    assert_eq!(interpolate_string("${HOST", &env), "${HOST");
    assert_eq!(interpolate_string("${HOST}${HOST}", &env), "svcsvc");
    assert_eq!(interpolate_string("", &env), "");
}

#[test]
fn interpolation_covers_body_and_header_values() {
    let env = EnvBindings { pairs: vec![("TOKEN".to_string(), "abc".to_string())] };
    let mut workflow = Workflow {
        name: "wf".to_string(),
        apis: vec![ApiConfig {
            body: Some("token=${TOKEN}".to_string()),
            headers: vec![("Authorization".to_string(), "Bearer ${TOKEN}".to_string())],
            ..api("s", None, "http://svc/${TOKEN}")
        }],
    };
    interpolate_config(&mut workflow, &env);
    assert_eq!(workflow.apis[0].url, "http://svc/abc");
    assert_eq!(workflow.apis[0].body.as_deref(), Some("token=abc"));
    assert_eq!(workflow.apis[0].headers[0].0, "Authorization");
    assert_eq!(workflow.apis[0].headers[0].1, "Bearer abc");
}

#[test]
fn validation_rejects_missing_url() {
    let mut workflow = Workflow {
        name: "wf".to_string(),
        apis: vec![api("ok", None, "http://svc/ok"), api("broken", None, "")],
    };
    let err = validate_settings(&mut workflow).unwrap_err();
    let ConfigError::Message(m) = err;
    assert_eq!(m, "API URL is missing in the configuration for 'broken'.");
}

#[test]
fn validation_fills_load_test_defaults() {
    let mut load_api = api("load", None, "http://svc/load");
    load_api.load_test = Some(true);
    let mut workflow = Workflow { name: "wf".to_string(), apis: vec![load_api] };
    validate_settings(&mut workflow).unwrap();
    let cfg = workflow.apis[0].load_test_config.unwrap();
    assert_eq!(cfg.initial_load, Some(1));
    assert_eq!(cfg.max_load, Some(10));
    assert_eq!(cfg.spawn_rate, Some(1));
    assert_eq!(cfg.retry_count, Some(0));
    assert_eq!(cfg.max_duration_secs, Some(60));
}

#[test]
fn filter_selects_requested_workflows() {
    let workflows = vec![
        Workflow { name: "a".to_string(), apis: Vec::new() },
        Workflow { name: "b".to_string(), apis: Vec::new() },
        Workflow { name: "c".to_string(), apis: Vec::new() },
    ];
    let payload = WebhookPayload { workflow_names: vec!["c".to_string(), "a".to_string()] };
    let selected = filter_workflows(workflows, &payload).unwrap();
    assert_eq!(selected.len(), 2);
    assert_eq!(selected[0].name, "a");
    assert_eq!(selected[1].name, "c");
}

#[test]
fn filter_rejects_empty_selection() {
    let workflows = vec![Workflow { name: "a".to_string(), apis: Vec::new() }];
    let payload = WebhookPayload { workflow_names: vec!["zz".to_string()] };
    let err = filter_workflows(workflows, &payload).unwrap_err();
    assert_eq!(err, "No matching workflows found.");
}

#[test]
fn client_config_carries_settings() {
    let settings = Settings {
        monitoring_interval_seconds: 60,
        log_level: "info".to_string(),
        http_timeout_seconds: 20,
        http_proxy_url: Some("http://proxy:3128".to_string()),
        http_default_headers: vec![("X-Env".to_string(), "test".to_string())],
    };
    let cfg = http_client_config_from(&settings);
    assert_eq!(cfg.timeout_seconds, 20);
    assert_eq!(cfg.proxy_url.as_deref(), Some("http://proxy:3128"));
    assert_eq!(cfg.default_headers.len(), 1);
    assert_eq!(cfg.default_headers[0].0, "X-Env");
    let defaults = HttpClientConfig::default();
    assert_eq!(defaults.timeout_seconds, 30);
    assert!(defaults.proxy_url.is_none());
    assert!(defaults.default_headers.is_empty());
}

#[test]
fn load_test_description_names_the_step() {
    let lt = LoadTest {
        api_config: api("ramp", Some(3), "http://svc/ramp"),
        load_test_config: LoadTestConfig::default(),
    };
    assert_eq!(lt.describe(), "LoadTest for ramp");
    assert_eq!(lt.get_task_order(), 3);
    assert!(lt.response_time_threshold().is_none());
    let task = Task { api_config: api("probe", None, "http://svc/probe") };
    assert_eq!(task.describe(), "Task for probe");
    assert_eq!(task.get_task_order(), usize::MAX);
}
