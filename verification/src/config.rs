use vstd::prelude::*;

verus! {

/// The HTTP methods a monitored step may use.
#[derive(Debug, Clone, Copy, PartialEq, Eq, Structural)]
pub enum HttpMethod {
    GET,
    POST,
    PUT,
    DELETE,
}

/// Parameters of one progressive load-test campaign. Every field is optional;
/// absent fields fall back to documented defaults when the configuration is
/// validated or when the campaign runs.
#[derive(Debug, Clone, Copy)]
pub struct LoadTestConfig {
    pub initial_load: Option<usize>,
    pub max_load: Option<usize>,
    pub spawn_rate: Option<usize>,
    pub retry_count: Option<usize>,
    pub max_duration_secs: Option<usize>,
}

/// The default load-test parameters: one initial user, a ceiling of ten,
/// one new user per tick, no retries, a sixty-second budget.
pub open spec fn spec_default_load_test_config() -> LoadTestConfig {
    LoadTestConfig {
        initial_load: Some(1),
        max_load: Some(10),
        spawn_rate: Some(1),
        retry_count: Some(0),
        max_duration_secs: Some(60),
    }
}

impl Default for LoadTestConfig {
    fn default() -> (r: Self)
        ensures
            r == spec_default_load_test_config(),
    {
        LoadTestConfig {
            initial_load: Some(1),
            max_load: Some(10),
            spawn_rate: Some(1),
            retry_count: Some(0),
            max_duration_secs: Some(60),
        }
    }
}

/// The immutable description of one monitored endpoint.
#[derive(Debug, Clone)]
pub struct ApiConfig {
    /// Name of the step, unique within its workflow.
    pub name: String,
    /// Execution-order key; steps without one sort last.
    pub task_order: Option<usize>,
    pub url: String,
    /// Header key/value pairs sent with each request.
    pub headers: Vec<(String, String)>,
    pub expected_field: String,
    pub response_time_threshold: u64,
    pub method: HttpMethod,
    /// Inline request body; a configured body file takes precedence.
    pub body: Option<String>,
    /// Path of a file whose contents serve as the request body.
    pub body_file: Option<String>,
    /// Whether this step runs as a load test rather than a single probe.
    pub load_test: Option<bool>,
    pub load_test_config: Option<LoadTestConfig>,
}

/// A named, ordered collection of monitored steps.
#[derive(Debug, Clone)]
pub struct Workflow {
    pub name: String,
    pub apis: Vec<ApiConfig>,
}

/// Process-wide settings handed in by the configuration layer.
#[derive(Debug, Clone)]
pub struct Settings {
    pub monitoring_interval_seconds: u64,
    pub log_level: String,
    pub http_timeout_seconds: u64,
    pub http_proxy_url: Option<String>,
    pub http_default_headers: Vec<(String, String)>,
}

/// Configuration of the shared HTTP client.
#[derive(Debug, Clone)]
pub struct HttpClientConfig {
    pub timeout_seconds: u64,
    pub proxy_url: Option<String>,
    pub default_headers: Vec<(String, String)>,
}

impl Default for HttpClientConfig {
    fn default() -> (r: Self)
        ensures
            r.timeout_seconds == 30,
            r.proxy_url is None,
            r.default_headers@.len() == 0,
    {
        HttpClientConfig { timeout_seconds: 30, proxy_url: None, default_headers: Vec::new() }
    }
}

/// The header pairs as mathematical character sequences.
pub open spec fn pairs_view(s: Seq<(String, String)>) -> Seq<(Seq<char>, Seq<char>)> {
    s.map_values(|p: (String, String)| (p.0@, p.1@))
}

/// Copies a list of header pairs; the copy carries the same names and values.
pub fn clone_header_pairs(v: &Vec<(String, String)>) -> (r: Vec<(String, String)>)
    ensures
        pairs_view(r@) == pairs_view(v@),
{
    let mut out: Vec<(String, String)> = Vec::new();
    let n = v.len();
    let mut i: usize = 0;
    while i < n
        invariant
            0 <= i <= n,
            n == v@.len(),
            out@.len() == i,
            forall|j: int|
                0 <= j < i ==> (#[trigger] out@[j]).0@ == v@[j].0@ && out@[j].1@ == v@[j].1@,
        decreases n - i,
    {
        let name = v[i].0.clone();
        let value = v[i].1.clone();
        out.push((name, value));
        i = i + 1;
    }
    proof {
        assert(pairs_view(out@) =~= pairs_view(v@));
    }
    out
}

/// Builds the shared HTTP client's configuration from the process settings.
pub fn http_client_config_from(settings: &Settings) -> (r: HttpClientConfig)
    ensures
        r.timeout_seconds == settings.http_timeout_seconds,
        r.proxy_url == settings.http_proxy_url,
        pairs_view(r.default_headers@) == pairs_view(settings.http_default_headers@),
{
    HttpClientConfig {
        timeout_seconds: settings.http_timeout_seconds,
        proxy_url: settings.http_proxy_url.clone(),
        default_headers: clone_header_pairs(&settings.http_default_headers),
    }
}

/// A fault in the loaded configuration, fatal at startup.
#[derive(Debug)]
pub enum ConfigError {
    Message(String),
}

/// Whether a step enables load testing but carries no load-test parameters;
/// validation fills such a step with the documented defaults.
pub open spec fn needs_default_load_test_config(api: ApiConfig) -> bool {
    api.load_test == Some(true) && api.load_test_config is None
}

/// The step as validation leaves it: unchanged, except that a load-test step
/// without parameters receives the default parameters.
pub open spec fn validated_api(api: ApiConfig) -> ApiConfig {
    if needs_default_load_test_config(api) {
        ApiConfig { load_test_config: Some(spec_default_load_test_config()), ..api }
    } else {
        api
    }
}

/// The text of the error reported for a step whose URL is missing.
pub open spec fn missing_url_message(name: Seq<char>) -> Seq<char> {
    "API URL is missing in the configuration for '"@ + name + "'."@
}

/// Applies the load-test default rule to one step.
fn apply_load_test_default(api: ApiConfig) -> (r: ApiConfig)
    ensures
        r == validated_api(api),
{
    let needs_default = match api.load_test {
        Some(true) => api.load_test_config.is_none(),
        _ => false,
    };
    if needs_default {
        ApiConfig {
            name: api.name,
            task_order: api.task_order,
            url: api.url,
            headers: api.headers,
            expected_field: api.expected_field,
            response_time_threshold: api.response_time_threshold,
            method: api.method,
            body: api.body,
            body_file: api.body_file,
            load_test: api.load_test,
            load_test_config: Some(LoadTestConfig::default()),
        }
    } else {
        api
    }
}

/// The index of the first step whose URL is empty, if any.
fn first_missing_url(apis: &Vec<ApiConfig>) -> (r: Option<usize>)
    ensures
        match r {
            Some(k) => {
                &&& 0 <= k < apis@.len()
                &&& apis@[k as int].url@.len() == 0
                &&& forall|j: int| 0 <= j < k ==> apis@[j].url@.len() > 0
            },
            None => forall|j: int| 0 <= j < apis@.len() ==> apis@[j].url@.len() > 0,
        },
{
    let n = apis.len();
    let mut i: usize = 0;
    while i < n
        invariant
            0 <= i <= n,
            n == apis@.len(),
            forall|j: int| 0 <= j < i ==> apis@[j].url@.len() > 0,
        decreases n - i,
    {
        if apis[i].url.as_str().is_empty() {
            return Some(i);
        }
        i = i + 1;
    }
    None
}

/// Checks a loaded workflow. Every step must carry a URL: if one does not,
/// the first such step is reported and the workflow is left unchanged.
/// Otherwise a load-test step without parameters is filled with the
/// documented defaults and every other step is left as it was.
pub fn validate_settings(workflow: &mut Workflow) -> (r: Result<(), ConfigError>)
    ensures
        final(workflow).name == old(workflow).name,
        final(workflow).apis@.len() == old(workflow).apis@.len(),
        match r {
            Ok(()) => {
                &&& forall|i: int|
                    0 <= i < old(workflow).apis@.len() ==> final(workflow).apis@[i]
                        == validated_api(old(workflow).apis@[i])
                &&& forall|i: int|
                    0 <= i < old(workflow).apis@.len() ==> old(
                        workflow,
                    ).apis@[i].url@.len() > 0
            },
            Err(ConfigError::Message(m)) => {
                &&& *final(workflow) == *old(workflow)
                &&& exists|k: int|
                    {
                        &&& 0 <= k < old(workflow).apis@.len()
                        &&& old(workflow).apis@[k].url@.len() == 0
                        &&& forall|j: int| 0 <= j < k ==> old(workflow).apis@[j].url@.len() > 0
                        &&& m@ == missing_url_message(old(workflow).apis@[k].name@)
                    }
            },
        },
{
    if let Some(k) = first_missing_url(&workflow.apis) {
        let msg = String::from_str("API URL is missing in the configuration for '").concat(
            workflow.apis[k].name.as_str(),
        ).concat("'.");
        return Err(ConfigError::Message(msg));
    }
    let n = workflow.apis.len();
    let mut i: usize = 0;
    while i < n
        invariant
            0 <= i <= n,
            n == workflow.apis@.len(),
            n == old(workflow).apis@.len(),
            workflow.name == old(workflow).name,
            forall|j: int|
                0 <= j < i ==> workflow.apis@[j] == validated_api(old(workflow).apis@[j]),
            forall|j: int| i <= j < n ==> workflow.apis@[j] == old(workflow).apis@[j],
        decreases n - i,
    {
        let ghost snap = workflow.apis@;
        let api = workflow.apis.remove(i);
        let updated = apply_load_test_default(api);
        workflow.apis.insert(i, updated);
        proof {
            assert(workflow.apis@ =~= snap.update(i as int, updated));
        }
        i = i + 1;
    }
    Ok(())
}

} // verus!

