use savvagent::openai::{error_from_response, parse_u64, retry_after_ms, BuildError,
    OpenAiProviderBuilder, DEFAULT_BASE_URL};
use savvagent::protocol::ErrorKind;

#[test]
fn openai_builder_resolves_key() {
    let b = OpenAiProviderBuilder::new();
    assert_eq!(b.base_url, DEFAULT_BASE_URL);
    assert!(b.https_only());
    assert_eq!(b.resolved_api_key(None), Err(BuildError::MissingApiKey));
    assert_eq!(b.resolved_api_key(Some(String::new())), Err(BuildError::MissingApiKey));
    assert_eq!(b.resolved_api_key(Some("env".into())), Ok("env".to_string()));
    let b = b.api_key("mine").base_url("http://localhost:1");
    assert_eq!(b.resolved_api_key(Some("env".into())), Ok("mine".to_string()));
    assert!(!b.https_only());
}

#[test]
fn parse_u64_follows_from_str() {
    assert_eq!(parse_u64("42"), Some(42));
    assert_eq!(parse_u64("+7"), Some(7));
    assert_eq!(parse_u64(""), None);
    assert_eq!(parse_u64("+"), None);
    assert_eq!(parse_u64("-1"), None);
    assert_eq!(parse_u64("1 "), None);
    assert_eq!(parse_u64("18446744073709551615"), Some(u64::MAX));
    assert_eq!(parse_u64("18446744073709551616"), None);
    for s in ["0", "12", "+3", "x", "", "99999999999999999999"] {
        assert_eq!(parse_u64(s), s.parse::<u64>().ok(), "{s}");
    }
}

#[test]
fn retry_after_is_seconds_times_thousand() {
    assert_eq!(retry_after_ms(Some("3")), Some(3000));
    assert_eq!(retry_after_ms(Some("soon")), None);
    assert_eq!(retry_after_ms(None), None);
}

#[test]
fn openai_error_body_and_status() {
    let e = error_from_response(
        429,
        Some("2"),
        "{\"error\":{\"message\":\"slow down\",\"code\":\"rate_limit\"}}".into(),
    );
    assert_eq!(e.kind, ErrorKind::RateLimited);
    assert_eq!(e.message, "slow down");
    assert_eq!(e.provider_code.as_deref(), Some("rate_limit"));
    assert_eq!(e.retry_after_ms, Some(2000));
    let e = error_from_response(413, None, "too big".into());
    assert_eq!(e.kind, ErrorKind::ContextLengthExceeded);
    assert_eq!(e.message, "too big");
    assert!(e.provider_code.is_none());
    let e = error_from_response(400, None, "{\"other\":1}".into());
    assert_eq!(e.message, "{\"other\":1}");
}
