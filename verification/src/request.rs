use vstd::prelude::*;
use crate::config::{pairs_view, ApiConfig, HttpMethod};

verus! {

/// Whether a string is a syntactically valid HTTP header name. What the
/// grammar admits is decided by the HTTP crate's parser; this name stands
/// for its verdict.
pub uninterp spec fn is_valid_header_name(s: Seq<char>) -> bool;

/// Whether a string is a syntactically valid HTTP header value, as the HTTP
/// crate's parser decides it.
pub uninterp spec fn is_valid_header_value(s: Seq<char>) -> bool;

/// Relies on reqwest::header::HeaderName::from_str: whether a header name
/// parses depends on its characters alone.
#[verifier::external_body]
fn check_header_name(s: &str) -> (r: bool)
    ensures
        r == is_valid_header_name(s@),
{
    <reqwest::header::HeaderName as std::str::FromStr>::from_str(s).is_ok()
}

/// Relies on reqwest::header::HeaderValue::from_str: whether a header value
/// parses depends on its characters alone.
#[verifier::external_body]
fn check_header_value(s: &str) -> (r: bool)
    ensures
        r == is_valid_header_value(s@),
{
    reqwest::header::HeaderValue::from_str(s).is_ok()
}

/// Whether both halves of a header pair are syntactically valid.
pub open spec fn header_pair_valid(p: (String, String)) -> bool {
    is_valid_header_name(p.0@) && is_valid_header_value(p.1@)
}

/// Whether requests with this method carry a body: only POST and PUT do;
/// GET and DELETE requests are sent without one (DELETE still carries its
/// headers).
pub open spec fn method_carries_body(m: HttpMethod) -> bool {
    m == HttpMethod::POST || m == HttpMethod::PUT
}

/// Why a request could not be built from its step configuration.
#[derive(Debug)]
pub enum RequestBuildError {
    /// A header pair is not syntactically valid.
    InvalidHeader { key: String, value: String },
    /// The configured body file could not be read.
    BodyFileError { path: String, message: String },
}

/// A request ready to hand to the HTTP client: where to send it, how, with
/// which headers (all checked valid), and with which body, if its method
/// carries one.
#[derive(Debug)]
pub struct RequestPlan {
    pub url: String,
    pub method: HttpMethod,
    pub headers: Vec<(String, String)>,
    pub body: Option<String>,
}

/// The position of the first header pair that does not parse, if any.
fn first_invalid_header(headers: &Vec<(String, String)>) -> (r: Option<usize>)
    ensures
        match r {
            Some(k) => {
                &&& 0 <= k < headers@.len()
                &&& !header_pair_valid(headers@[k as int])
                &&& forall|j: int| 0 <= j < k ==> header_pair_valid(#[trigger] headers@[j])
            },
            None => forall|j: int|
                0 <= j < headers@.len() ==> header_pair_valid(#[trigger] headers@[j]),
        },
{
    let n = headers.len();
    let mut i: usize = 0;
    while i < n
        invariant
            0 <= i <= n,
            n == headers@.len(),
            forall|j: int| 0 <= j < i ==> header_pair_valid(#[trigger] headers@[j]),
        decreases n - i,
    {
        let name_ok = check_header_name(headers[i].0.as_str());
        let value_ok = check_header_value(headers[i].1.as_str());
        if !name_ok || !value_ok {
            return Some(i);
        }
        i = i + 1;
    }
    None
}

/// The body a step's configuration asks for, before the method is consulted:
/// the file's contents when a body file is configured, else the inline body,
/// else empty.
pub open spec fn configured_body(api: ApiConfig, file_contents: Option<Seq<char>>) -> Seq<char> {
    if api.body_file is Some {
        file_contents.unwrap()
    } else if api.body is Some {
        api.body.unwrap()@
    } else {
        Seq::empty()
    }
}

/// Builds the plan for one request from a step's configuration. The caller
/// reads the configured body file, if any, and hands the outcome in as
/// `file_body`; nothing else reaches outside. The first syntactically
/// invalid header pair fails the build; an unreadable body file fails it
/// once the headers have passed. Body precedence: a configured body file
/// wins over an inline body; GET and DELETE requests carry no body.
pub fn build_request_plan(api: &ApiConfig, file_body: Option<Result<String, String>>) -> (r: Result<
    RequestPlan,
    RequestBuildError,
>)
    requires
        api.body_file is Some <==> file_body is Some,
    ensures
        match r {
            Ok(plan) => {
                &&& forall|j: int|
                    0 <= j < api.headers@.len() ==> header_pair_valid(#[trigger] api.headers@[j])
                &&& (file_body is Some ==> file_body.unwrap() is Ok)
                &&& plan.url@ == api.url@
                &&& plan.method == api.method
                &&& pairs_view(plan.headers@) == pairs_view(api.headers@)
                &&& if method_carries_body(api.method) {
                    plan.body is Some && plan.body.unwrap()@ == configured_body(
                        *api,
                        if file_body is Some {
                            Some(file_body.unwrap().unwrap()@)
                        } else {
                            None
                        },
                    )
                } else {
                    plan.body is None
                }
            },
            Err(RequestBuildError::InvalidHeader { key, value }) => exists|k: int|
                {
                    &&& 0 <= k < api.headers@.len()
                    &&& !header_pair_valid(api.headers@[k])
                    &&& forall|j: int| 0 <= j < k ==> header_pair_valid(#[trigger] api.headers@[j])
                    &&& key@ == api.headers@[k].0@
                    &&& value@ == api.headers@[k].1@
                },
            Err(RequestBuildError::BodyFileError { path, message }) => {
                &&& forall|j: int|
                    0 <= j < api.headers@.len() ==> header_pair_valid(#[trigger] api.headers@[j])
                &&& file_body is Some
                &&& file_body.unwrap() is Err
                &&& path@ == api.body_file.unwrap()@
                &&& message@ == file_body.unwrap().unwrap_err()@
            },
        },
{
    if let Some(k) = first_invalid_header(&api.headers) {
        let key = api.headers[k].0.clone();
        let value = api.headers[k].1.clone();
        return Err(RequestBuildError::InvalidHeader { key, value });
    }
    let body_content: String = match (&api.body_file, file_body) {
        (Some(path), Some(read)) => {
            match read {
                Ok(contents) => contents,
                Err(message) => {
                    return Err(
                        RequestBuildError::BodyFileError { path: path.clone(), message },
                    );
                },
            }
        },
        (None, None) => {
            match &api.body {
                Some(b) => b.clone(),
                None => String::new(),
            }
        },
        _ => {
            proof {
                assert(false);
            }
            String::new()
        },
    };
    let headers = crate::config::clone_header_pairs(&api.headers);
    let body = match api.method {
        HttpMethod::POST => Some(body_content),
        HttpMethod::PUT => Some(body_content),
        HttpMethod::GET => None,
        HttpMethod::DELETE => None,
    };
    Ok(RequestPlan { url: api.url.clone(), method: api.method, headers, body })
}

impl RequestBuildError {
    /// The error as the text a log or a caller sees.
    pub fn message(&self) -> (r: String)
        ensures
            match *self {
                RequestBuildError::InvalidHeader { key, value } => r@ == "Invalid header: "@
                    + key@ + ": "@ + value@,
                RequestBuildError::BodyFileError { path, message } => r@
                    == "Error reading request body from file '"@ + path@ + "': "@ + message@,
            },
    {
        match self {
            RequestBuildError::InvalidHeader { key, value } => {
                String::from_str("Invalid header: ").concat(key.as_str()).concat(": ").concat(
                    value.as_str(),
                )
            },
            RequestBuildError::BodyFileError { path, message } => {
                String::from_str("Error reading request body from file '").concat(
                    path.as_str(),
                ).concat("': ").concat(message.as_str())
            },
        }
    }
}

} // verus!
