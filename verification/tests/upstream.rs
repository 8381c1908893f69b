use oplire::proxy::upstream::{bearer, chat_completions_url, classify_history_response};
use oplire::proxy::upstream::classify_history_status;
use oplire::proxy::upstream::{classify_native_response, classify_native_status};
use oplire::proxy::upstream::{classify_openai_response, classify_openai_status};
use oplire::proxy::upstream::{event_stream_headers, give_up, is_loopback_host, is_loopback_url};
use oplire::proxy::upstream::{message_url, model_url, models_url, prompt_async_url, request_id};
use oplire::proxy::upstream::{session_header, session_url, short_sid, upstream_root};
use oplire::proxy::upstream::{NativeAttemptError, ProxyError};

#[test]
fn urls() {
    assert_eq!(upstream_root("http://h:1//"), "http://h:1");
    assert_eq!(models_url("http://h:1/"), "http://h:1/v1/models");
    assert_eq!(model_url("http://h:1", "a/b"), "http://h:1/v1/models/a/b");
    assert_eq!(chat_completions_url("http://h:1/"), "http://h:1/v1/chat/completions");
    assert_eq!(session_url("http://h:1"), "http://h:1/session");
    assert_eq!(message_url("http://h:1", "s"), "http://h:1/session/s/message");
    assert_eq!(prompt_async_url("http://h:1", "s"), "http://h:1/session/s/prompt_async");
}

#[test]
fn headers() {
    assert_eq!(bearer("k"), "Bearer k");
    assert_eq!(session_header(true), ("x-oplire-session", "reused"));
    assert_eq!(session_header(false), ("x-oplire-session", "fresh"));
    assert_eq!(request_id(1_700_000_000, 123_456_789), "req_1700000000123");
    assert_eq!(request_id(0, 999_999), "req_0");
    assert_eq!(short_sid("ses_abcdef123"), "ses_abcd");
    assert_eq!(short_sid("ses"), "ses");
    assert_eq!(
        event_stream_headers(),
        vec![
            ("Content-Type", "text/event-stream; charset=utf-8"),
            ("Cache-Control", "no-cache"),
            ("Connection", "keep-alive"),
            ("X-Accel-Buffering", "no"),
        ]
    );
}

#[test]
fn loopback_urls() {
    assert!(is_loopback_url("http://localhost:3000"));
    assert!(is_loopback_url("http://LOCALHOST/x"));
    assert!(is_loopback_url("https://127.0.0.1"));
    assert!(is_loopback_url("http://127.9.8.7:1/"));
    assert!(is_loopback_url("http://127.1"));
    assert!(is_loopback_url("http://127.example.com"));
    assert!(!is_loopback_url("http://128.0.0.1"));
    assert!(!is_loopback_url("http://example.com"));
    assert!(!is_loopback_url("http://localhost.example.com"));
    assert!(!is_loopback_url("http://[::1]:3000"));
    assert!(!is_loopback_url("localhost"));
    assert!(!is_loopback_url("data:,x"));
    assert!(!is_loopback_url(""));
}

#[test]
fn loopback_hosts() {
    assert!(is_loopback_host(Some("::1")));
    assert!(is_loopback_host(Some("127.")));
    assert!(!is_loopback_host(Some("127")));
    assert!(!is_loopback_host(Some("[::1]")));
    assert!(!is_loopback_host(None));
}

#[test]
fn native_answers() {
    assert_eq!(classify_native_response(200, None), Ok(()));
    assert_eq!(classify_native_response(204, Some("x")), Ok(()));
    assert_eq!(
        classify_native_response(429, Some("slow")),
        Err(NativeAttemptError::RateLimited)
    );
    assert_eq!(
        classify_native_response(404, Some("no session")),
        Err(NativeAttemptError::Stale("Native upstream 404 Not Found : no session".to_string()))
    );
    assert_eq!(
        classify_native_response(500, None),
        Err(NativeAttemptError::Failed(
            "Native upstream 500 Internal Server Error : Unknown error".to_string()
        ))
    );
    assert_eq!(
        classify_native_response(302, Some("")),
        Err(NativeAttemptError::Failed("Native upstream 302 Found : ".to_string()))
    );
    assert_eq!(
        classify_native_response(799, Some("")),
        Err(NativeAttemptError::Failed(
            "Native upstream 799 <unknown status code> : ".to_string()
        ))
    );
    assert_eq!(
        classify_native_status(499, "reason", None),
        Err(NativeAttemptError::Stale("Native upstream reason : Unknown error".to_string()))
    );
}

#[test]
fn history_answers() {
    assert_eq!(classify_history_response(200, None), Ok(true));
    assert_eq!(classify_history_response(500, Some("x")), Ok(false));
    assert_eq!(classify_history_response(599, None), Ok(false));
    assert_eq!(classify_history_status(502, "reason", None), Ok(false));
    assert_eq!(
        classify_history_status(404, "reason", Some("b")),
        Err(NativeAttemptError::Stale("Native upstream reason : b".to_string()))
    );
    assert_eq!(
        classify_history_response(429, None),
        Err(NativeAttemptError::RateLimited)
    );
    assert_eq!(
        classify_history_response(400, Some("b")),
        Err(NativeAttemptError::Stale("Native upstream 400 Bad Request : b".to_string()))
    );
    assert_eq!(
        classify_history_response(301, Some("b")),
        Err(NativeAttemptError::Failed(
            "Native upstream 301 Moved Permanently : b".to_string()
        ))
    );
}

#[test]
fn openai_answers() {
    assert_eq!(classify_openai_response(201, None), Ok(()));
    assert_eq!(classify_openai_response(429, Some("x")), Err(ProxyError::RateLimited));
    assert_eq!(
        classify_openai_response(401, Some("no key")),
        Err(ProxyError::RequestFailed("Upstream 401 Unauthorized : no key".to_string()))
    );
    assert_eq!(
        classify_openai_status(503, "503", None),
        Err(ProxyError::RequestFailed("Upstream 503 : Unknown error".to_string()))
    );
}

#[test]
fn giving_up() {
    assert_eq!(give_up(NativeAttemptError::RateLimited), ProxyError::RateLimited);
    assert_eq!(
        give_up(NativeAttemptError::Stale("a".to_string())),
        ProxyError::RequestFailed("a".to_string())
    );
    assert_eq!(
        give_up(NativeAttemptError::Failed("b".to_string())),
        ProxyError::RequestFailed("b".to_string())
    );
}
