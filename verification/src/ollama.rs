//! Configuration of the Ollama provider.
use vstd::prelude::*;

use std::time::Duration;

use crate::json::{as_text, json_parse, object_member, parse_json, str_of};
use crate::protocol::{ErrorKind, ProviderError};
use crate::text::TextLike;

verus! {

/// Default Ollama base URL.
pub const DEFAULT_BASE_URL: &'static str = "http://localhost:11434";

/// Default model used when a request names none.
pub const DEFAULT_MODEL: &'static str = "llama3.2";

/// Builder of the Ollama provider.
#[derive(Debug)]
pub struct OllamaProviderBuilder {
    /// Base URL (no trailing slash).
    pub base_url: String,
    /// HTTP request timeout.
    pub timeout: Duration,
    /// Whether a base URL was set through [`OllamaProviderBuilder::base_url`].
    pub base_url_set: bool,
}

/// Failures of building the Ollama provider.
#[derive(Debug, Clone, PartialEq, Eq)]
pub enum BuildError {
    /// The HTTP client failed to construct; its message.
    HttpClient(String),
}

/// `Duration::from_secs`. A duration is opaque here: nothing is stated of
/// the value.
#[verifier::external_body]
pub(crate) fn seconds(n: u64) -> Duration {
    Duration::from_secs(n)
}

impl OllamaProviderBuilder {
    /// The defaults: the local Ollama URL and a 300 s timeout.
    pub fn new() -> (b: Self)
        ensures
            b.base_url@ == DEFAULT_BASE_URL@,
            !b.base_url_set,
    {
        OllamaProviderBuilder { base_url: String::from_str(DEFAULT_BASE_URL), timeout: seconds(300), base_url_set: false }
    }

    /// Override the base URL (no trailing slash).
    pub fn base_url<T: TextLike>(self, url: T) -> (b: Self)
        ensures
            b.base_url@ == url.text(),
            b.timeout == self.timeout,
            b.base_url_set,
    {
        OllamaProviderBuilder { base_url: url.into_text(), timeout: self.timeout, base_url_set: true }
    }

    /// Override the HTTP request timeout.
    pub fn timeout(self, t: Duration) -> (b: Self)
        ensures
            b.base_url == self.base_url,
            b.timeout == t,
            b.base_url_set == self.base_url_set,
    {
        OllamaProviderBuilder { base_url: self.base_url, timeout: t, base_url_set: self.base_url_set }
    }

    /// The base URL the provider talks to: a URL set through `base_url`
    /// wins; when none was set, a non-empty `OLLAMA_HOST` value replaces the
    /// default.
    pub fn resolved_base_url(&self, env_host: Option<&str>) -> (r: String)
        ensures
            r@ == if !self.base_url_set && (env_host matches Some(h) && h@.len() > 0) {
                env_host->0@
            } else {
                self.base_url@
            },
    {
        if !self.base_url_set {
            if let Some(h) = env_host {
                if !h.is_empty() {
                    return String::from_str(h);
                }
            }
        }
        self.base_url.clone()
    }
}

/// The error category of an HTTP status from Ollama.
pub open spec fn status_kind(status: u16) -> ErrorKind {
    if status == 400 {
        ErrorKind::InvalidRequest
    } else if status == 401 {
        ErrorKind::Authentication
    } else if status == 403 {
        ErrorKind::PermissionDenied
    } else if status == 404 {
        ErrorKind::ModelNotFound
    } else if status == 429 {
        ErrorKind::RateLimited
    } else if status == 500 || status == 502 || status == 503 || status == 504 {
        ErrorKind::Overloaded
    } else {
        ErrorKind::Internal
    }
}

/// What Ollama's error body `{"error": "..."}` carries: the `error` string
/// when `body` is JSON holding one.
pub open spec fn ollama_error_text(body: Seq<char>) -> Option<Seq<char>> {
    match json_parse(body) {
        Ok(j) => as_text(object_member(j, "error"@)),
        Err(_) => None,
    }
}

/// The `error` string of a JSON body (see `ollama_error_text`).
fn error_field(body: &str) -> (r: Option<String>)
    ensures
        opt_chars(r) == ollama_error_text(body@),
{
    match parse_json(body) {
        Ok(v) => str_of(v.get("error")),
        Err(_) => None,
    }
}

/// The model of an optional string.
pub open spec fn opt_chars(o: Option<String>) -> Option<Seq<char>> {
    match o {
        Some(s) => Some(s@),
        None => None,
    }
}

/// The error for a failed Ollama response with HTTP `status` and `body`:
/// the category follows the status; the message is the body's `error`
/// string, else the whole body.
pub fn error_from_response(status: u16, body: String) -> (e: ProviderError)
    ensures
        e.kind == status_kind(status),
        e.message@ == match ollama_error_text(body@) {
            Some(m) => m,
            None => body@,
        },
        e.retry_after_ms is None,
        e.provider_code is None,
{
    let kind = if status == 400 {
        ErrorKind::InvalidRequest
    } else if status == 401 {
        ErrorKind::Authentication
    } else if status == 403 {
        ErrorKind::PermissionDenied
    } else if status == 404 {
        ErrorKind::ModelNotFound
    } else if status == 429 {
        ErrorKind::RateLimited
    } else if status == 500 || status == 502 || status == 503 || status == 504 {
        ErrorKind::Overloaded
    } else {
        ErrorKind::Internal
    };
    let message = match error_field(body.as_str()) {
        Some(m) => m,
        None => body,
    };
    ProviderError { kind, message, retry_after_ms: None, provider_code: None }
}

} // verus!
