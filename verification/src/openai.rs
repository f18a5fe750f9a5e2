//! Configuration of the OpenAI provider.
use vstd::prelude::*;

use std::time::Duration;

use crate::json::{as_text, json_parse, object_member, parse_json, str_of};
use crate::ollama::{opt_chars, seconds};
use crate::protocol::{ErrorKind, ProviderError};
use crate::text::{chars_of, has_prefix, starts_with, TextLike};

verus! {

/// Default OpenAI API base URL.
pub const DEFAULT_BASE_URL: &'static str = "https://api.openai.com";

/// Chat Completions endpoint path.
pub const CHAT_COMPLETIONS_PATH: &'static str = "/v1/chat/completions";

/// Default model when the host names none.
pub const DEFAULT_MODEL: &'static str = "gpt-4o-mini";

/// Builder of the OpenAI provider.
#[derive(Debug)]
pub struct OpenAiProviderBuilder {
    /// API key, when given explicitly.
    pub api_key: Option<String>,
    /// Base URL (no trailing slash).
    pub base_url: String,
    /// HTTP request timeout.
    pub timeout: Duration,
}

/// Failures of building the OpenAI provider.
#[derive(Debug, Clone, PartialEq, Eq)]
pub enum BuildError {
    /// Neither the builder nor the environment provided an API key.
    MissingApiKey,
    /// The HTTP client failed to construct; its message.
    HttpClient(String),
}

impl OpenAiProviderBuilder {
    /// The defaults: no key, the OpenAI URL, a 120 s timeout.
    pub fn new() -> (b: Self)
        ensures
            b.api_key is None,
            b.base_url@ == DEFAULT_BASE_URL@,
    {
        OpenAiProviderBuilder { api_key: None, base_url: String::from_str(DEFAULT_BASE_URL), timeout: seconds(120) }
    }

    /// Set the API key.
    pub fn api_key<T: TextLike>(self, key: T) -> (b: Self)
        ensures
            b.api_key matches Some(k) && k@ == key.text(),
            b.base_url == self.base_url,
            b.timeout == self.timeout,
    {
        OpenAiProviderBuilder { api_key: Some(key.into_text()), base_url: self.base_url, timeout: self.timeout }
    }

    /// Override the base URL (no trailing slash).
    pub fn base_url<T: TextLike>(self, url: T) -> (b: Self)
        ensures
            b.base_url@ == url.text(),
            b.api_key == self.api_key,
            b.timeout == self.timeout,
    {
        OpenAiProviderBuilder { api_key: self.api_key, base_url: url.into_text(), timeout: self.timeout }
    }

    /// Override the HTTP request timeout.
    pub fn timeout(self, t: Duration) -> (b: Self)
        ensures
            b.api_key == self.api_key,
            b.base_url == self.base_url,
            b.timeout == t,
    {
        OpenAiProviderBuilder { api_key: self.api_key, base_url: self.base_url, timeout: t }
    }

    /// The API key to use: the explicit one, else the environment's; an
    /// empty key counts as missing.
    pub fn resolved_api_key(&self, env_key: Option<String>) -> (r: Result<String, BuildError>)
        ensures
            ({
                let chosen = match self.api_key {
                    Some(k) => Some(k),
                    None => env_key,
                };
                match chosen {
                    Some(k) => if k@.len() > 0 {
                        r == Ok::<String, BuildError>(k)
                    } else {
                        r == Err::<String, BuildError>(BuildError::MissingApiKey)
                    },
                    None => r == Err::<String, BuildError>(BuildError::MissingApiKey),
                }
            }),
    {
        let chosen = match &self.api_key {
            Some(k) => Some(k.clone()),
            None => env_key,
        };
        match chosen {
            Some(k) => if k.as_str().is_empty() {
                Err(BuildError::MissingApiKey)
            } else {
                Ok(k)
            },
            None => Err(BuildError::MissingApiKey),
        }
    }

    /// Whether the HTTP client must refuse plain-HTTP connections: exactly
    /// when the base URL is an `https://` URL.
    pub fn https_only(&self) -> (r: bool)
        ensures
            r == has_prefix(self.base_url@, "https://"@),
    {
        let u = chars_of(self.base_url.as_str());
        let p = chars_of("https://");
        starts_with(u.as_slice(), p.as_slice())
    }
}

/// The error category of an HTTP status from OpenAI.
pub open spec fn status_kind(status: u16) -> ErrorKind {
    if status == 400 {
        ErrorKind::InvalidRequest
    } else if status == 401 {
        ErrorKind::Authentication
    } else if status == 403 {
        ErrorKind::PermissionDenied
    } else if status == 404 {
        ErrorKind::ModelNotFound
    } else if status == 413 {
        ErrorKind::ContextLengthExceeded
    } else if status == 429 {
        ErrorKind::RateLimited
    } else if status == 500 || status == 502 || status == 503 || status == 504 {
        ErrorKind::Overloaded
    } else {
        ErrorKind::Internal
    }
}

/// Is `c` an ASCII digit?
pub open spec fn is_digit(c: char) -> bool {
    '0' <= c && c <= '9'
}

/// The value of a run of decimal digits.
pub open spec fn digits_value(ds: Seq<char>) -> nat
    decreases ds.len(),
{
    if ds.len() == 0 {
        0
    } else {
        digits_value(ds.drop_last()) * 10 + ((ds.last() as u32) - 48) as nat
    }
}

/// `s` without one leading `+`.
pub open spec fn strip_plus(s: Seq<char>) -> Seq<char> {
    if s.len() > 0 && s[0] == '+' {
        s.skip(1)
    } else {
        s
    }
}

/// `u64::from_str`: an optional `+`, then one or more digits whose value
/// fits in a `u64`.
pub open spec fn parse_u64_spec(s: Seq<char>) -> Option<u64> {
    parse_u64_spec_body(strip_plus(s))
}

/// A longer run of digits is worth at least as much as its prefix.
proof fn lemma_digits_prefix(ds: Seq<char>, i: int)
    requires
        0 <= i <= ds.len(),
        forall|j: int| 0 <= j < ds.len() ==> is_digit(#[trigger] ds[j]),
    ensures
        digits_value(ds.take(i)) <= digits_value(ds),
    decreases ds.len() - i,
{
    if i < ds.len() {
        lemma_digits_prefix(ds, i + 1);
        assert(ds.take(i + 1).drop_last() =~= ds.take(i));
    } else {
        assert(ds.take(i) =~= ds);
    }
}

/// Parse a `u64` the way `u64::from_str` does.
pub fn parse_u64(s: &str) -> (r: Option<u64>)
    ensures
        r == parse_u64_spec(s@),
{
    let cs = chars_of(s);
    let n = cs.len();
    let start: usize = if n > 0 && cs[0] == '+' { 1 } else { 0 };
    let ghost body = strip_plus(s@);
    assert(body =~= cs@.subrange(start as int, n as int));
    assert(parse_u64_spec(s@) == parse_u64_spec_body(body));
    if start == n {
        return None;
    }
    let mut v: u64 = 0;
    let mut i = start;
    while i < n
        invariant
            start <= i <= n == cs@.len(),
            body == cs@.subrange(start as int, n as int),
            parse_u64_spec(s@) == parse_u64_spec_body(body),
            forall|j: int| 0 <= j < i - start ==> is_digit(#[trigger] body[j]),
            v as nat == digits_value(body.take(i - start)),
        decreases n - i,
    {
        let c = cs[i];
        if !('0' <= c && c <= '9') {
            assert(!is_digit(body[i - start]));
            return None;
        }
        let d = (c as u32 - 48) as u64;
        assert(body.take(i + 1 - start).drop_last() =~= body.take(i - start));
        assert(body.take(i + 1 - start).last() == c);
        match v.checked_mul(10) {
            Some(t) => match t.checked_add(d) {
                Some(u) => {
                    v = u;
                },
                None => {
                    proof {
                        lemma_overflow_tail(body, (i + 1 - start) as int);
                    }
                    return None;
                },
            },
            None => {
                proof {
                    assert(digits_value(body.take(i + 1 - start)) >= digits_value(body.take(i - start)) * 10);
                    lemma_overflow_tail(body, (i + 1 - start) as int);
                }
                return None;
            },
        }
        i = i + 1;
    }
    assert(body.take(n - start) =~= body);
    Some(v)
}

/// If the digits of `body` up to `k` already overflow, either a non-digit
/// follows or the whole value overflows.
proof fn lemma_overflow_tail(body: Seq<char>, k: int)
    requires
        0 <= k <= body.len(),
        digits_value(body.take(k)) > u64::MAX,
    ensures
        parse_u64_spec_body(body) is None,
{
    if forall|j: int| 0 <= j < body.len() ==> is_digit(#[trigger] body[j]) {
        lemma_digits_prefix(body, k);
    }
}

/// `parse_u64_spec` once the sign is removed.
pub open spec fn parse_u64_spec_body(body: Seq<char>) -> Option<u64> {
    if body.len() == 0 || exists|i: int| 0 <= i < body.len() && !is_digit(#[trigger] body[i]) {
        None
    } else if digits_value(body) > u64::MAX {
        None
    } else {
        Some(digits_value(body) as u64)
    }
}

/// The retry delay a `retry-after` header asks for, in milliseconds: its
/// value in seconds times 1000 (wrapping), when it parses.
pub fn retry_after_ms(header: Option<&str>) -> (r: Option<u64>)
    ensures
        r == match header {
            Some(h) => match parse_u64_spec(h@) {
                Some(secs) => Some(vstd::wrapping::u64_specs::wrapping_mul(secs, 1000)),
                None => None,
            },
            None => None::<u64>,
        },
{
    match header {
        Some(h) => match parse_u64(h) {
            Some(secs) => Some(secs.wrapping_mul(1000)),
            None => None,
        },
        None => None,
    }
}

/// What OpenAI's error body carries when `body` is JSON: the
/// `error.message` string and the `error.code` string, each when present;
/// `None` when `body` is not JSON.
pub open spec fn openai_error_json(body: Seq<char>) -> Option<(Option<Seq<char>>, Option<Seq<char>>)> {
    match json_parse(body) {
        Ok(j) => {
            let err = object_member(j, "error"@);
            let field = |k: Seq<char>|
                match err {
                    Some(e) => as_text(object_member(e, k)),
                    None => None,
                };
            Some((field("message"@), field("code"@)))
        },
        Err(_) => None,
    }
}

/// `error.message` and `error.code` of a JSON body (see
/// `openai_error_json`).
fn error_fields(body: &str) -> (r: Option<(Option<String>, Option<String>)>)
    ensures
        match r {
            Some((m, c)) => openai_error_json(body@) == Some((opt_chars(m), opt_chars(c))),
            None => openai_error_json(body@) is None,
        },
{
    match parse_json(body) {
        Ok(v) => {
            let (m, c) = match v.get("error") {
                Some(e) => (str_of(e.get("message")), str_of(e.get("code"))),
                None => (None, None),
            };
            Some((m, c))
        },
        Err(_) => None,
    }
}

/// The error for a failed OpenAI response with HTTP `status`, its
/// `retry-after` header and `body`: the category follows the status; the
/// message is `error.message` when the body is JSON holding one, else the
/// whole body; the code is `error.code` when present.
pub fn error_from_response(status: u16, retry_after: Option<&str>, body: String) -> (e: ProviderError)
    ensures
        e.kind == status_kind(status),
        e.retry_after_ms == match retry_after {
            Some(h) => match parse_u64_spec(h@) {
                Some(secs) => Some(vstd::wrapping::u64_specs::wrapping_mul(secs, 1000)),
                None => None,
            },
            None => None::<u64>,
        },
        match openai_error_json(body@) {
            Some((m, c)) => e.message@ == (match m {
                Some(t) => t,
                None => body@,
            }) && opt_chars(e.provider_code) == c,
            None => e.message@ == body@ && e.provider_code is None,
        },
{
    let retry = retry_after_ms(retry_after);
    let kind = if status == 400 {
        ErrorKind::InvalidRequest
    } else if status == 401 {
        ErrorKind::Authentication
    } else if status == 403 {
        ErrorKind::PermissionDenied
    } else if status == 404 {
        ErrorKind::ModelNotFound
    } else if status == 413 {
        ErrorKind::ContextLengthExceeded
    } else if status == 429 {
        ErrorKind::RateLimited
    } else if status == 500 || status == 502 || status == 503 || status == 504 {
        ErrorKind::Overloaded
    } else {
        ErrorKind::Internal
    };
    let (message, provider_code) = match error_fields(body.as_str()) {
        Some((m, c)) => (
            match m {
                Some(t) => t,
                None => body,
            },
            c,
        ),
        None => (body, None),
    };
    ProviderError { kind, message, retry_after_ms: retry, provider_code }
}

} // verus!
