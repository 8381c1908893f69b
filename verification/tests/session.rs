use oplire::json::Json;
use oplire::json_text::to_text;
use oplire::proxy::messages::read_request;
use oplire::proxy::session::{SessionCache, SessionFlow, SessionStep};
use oplire::proxy::session::{created_session_id, prepare_native, prepare_native_for, prompt_body};
use oplire::proxy::upstream::{NativeAttemptError, ProxyError};

fn parse(text: &str) -> Json {
    read_request(text.as_bytes()).expect("valid JSON")
}

fn fails_with(step: SessionStep, e: ProxyError) -> bool {
    match step {
        SessionStep::Fail(got) => got == e,
        _ => false,
    }
}

fn stale(msg: &str) -> Result<(), NativeAttemptError> {
    Err(NativeAttemptError::Stale(msg.to_string()))
}

#[test]
fn a_cache_by_model() {
    let mut cache = SessionCache::new();
    assert_eq!(cache.get("a"), None);
    cache.insert("a", "s1");
    cache.insert("b", "s2");
    assert_eq!(cache.get("a").as_deref(), Some("s1"));
    cache.insert("a", "s3");
    assert_eq!(cache.get("a").as_deref(), Some("s3"));
    assert_eq!(cache.get("b").as_deref(), Some("s2"));
}

#[test]
fn a_fresher_session_stays() {
    let mut cache = SessionCache::new();
    cache.insert("a", "fresher");
    cache.drop_cached_session("a", "stale");
    assert_eq!(cache.get("a").as_deref(), Some("fresher"));
    cache.drop_cached_session("b", "fresher");
    cache.drop_cached_session("a", "fresher");
    assert_eq!(cache.get("a"), None);
}

#[test]
fn a_cold_start_creates_and_caches() {
    let mut cache = SessionCache::new();
    let (mut flow, step) = SessionFlow::begin(&cache, "m");
    assert!(matches!(step, SessionStep::Create));
    let step = flow.created(&mut cache, Ok("s1".to_string()));
    assert!(matches!(step, SessionStep::Attempt));
    assert_eq!(flow.session_id(), "s1");
    assert!(!flow.reused());
    assert_eq!(cache.get("m").as_deref(), Some("s1"));
    assert!(matches!(flow.attempted(&mut cache, Ok(())), SessionStep::Done));
    assert_eq!(cache.get("m").as_deref(), Some("s1"));
}

#[test]
fn a_session_that_cannot_be_created_fails_the_request() {
    let mut cache = SessionCache::new();
    let (mut flow, _) = SessionFlow::begin(&cache, "m");
    assert!(fails_with(
        flow.created(&mut cache, Err(ProxyError::RateLimited)),
        ProxyError::RateLimited
    ));
    assert_eq!(cache.get("m"), None);
}

#[test]
fn a_stale_reused_session_is_replaced_once() {
    let mut cache = SessionCache::new();
    cache.insert("m", "old");
    cache.insert("other", "kept");
    let (mut flow, step) = SessionFlow::begin(&cache, "m");
    assert!(matches!(step, SessionStep::Attempt));
    assert!(flow.reused());
    assert_eq!(flow.session_id(), "old");
    assert!(matches!(flow.attempted(&mut cache, stale("404")), SessionStep::Create));
    assert_eq!(cache.get("m"), None);
    assert!(matches!(flow.created(&mut cache, Ok("new".to_string())), SessionStep::Attempt));
    assert!(!flow.reused());
    assert_eq!(flow.session_id(), "new");
    assert_eq!(cache.get("m").as_deref(), Some("new"));
    assert!(fails_with(
        flow.attempted(&mut cache, stale("again")),
        ProxyError::RequestFailed("again".to_string())
    ));
    assert_eq!(cache.get("m"), None);
    assert_eq!(cache.get("other").as_deref(), Some("kept"));
}

#[test]
fn rate_limits_and_failures_keep_the_session() {
    for (outcome, expected) in [
        (NativeAttemptError::RateLimited, ProxyError::RateLimited),
        (
            NativeAttemptError::Failed("boom".to_string()),
            ProxyError::RequestFailed("boom".to_string()),
        ),
    ] {
        let mut cache = SessionCache::new();
        cache.insert("m", "s");
        let (mut flow, _) = SessionFlow::begin(&cache, "m");
        assert!(fails_with(flow.attempted(&mut cache, Err(outcome)), expected));
        assert_eq!(cache.get("m").as_deref(), Some("s"));
    }
}

#[test]
fn a_stale_new_session_fails_and_is_dropped() {
    let mut cache = SessionCache::new();
    let (mut flow, _) = SessionFlow::begin(&cache, "m");
    flow.created(&mut cache, Ok("s".to_string()));
    assert!(fails_with(
        flow.attempted(&mut cache, stale("bad")),
        ProxyError::RequestFailed("bad".to_string())
    ));
    assert_eq!(cache.get("m"), None);
}

#[test]
fn only_this_machine_is_asked() {
    let body = parse(r#"{"model":"m","messages":[{"role":"user","content":"hi"}]}"#);
    assert_eq!(
        prepare_native("http://example.com:3000", &body).err(),
        Some(ProxyError::RequestFailed(
            "refusing non-loopback native upstream: http://example.com:3000".to_string()
        ))
    );
    let request = prepare_native("http://localhost:3000/", &body).ok().unwrap();
    assert_eq!(request.model_id, "m");
    assert_eq!(request.parts.len(), 1);
    assert!(prepare_native_for(true, "anything", &body).is_ok());
    assert!(prepare_native_for(false, "http://localhost", &body).is_err());
}

#[test]
fn a_request_without_input_is_refused() {
    assert_eq!(
        prepare_native("http://127.0.0.1", &parse(r#"{"messages":[]}"#)).err(),
        Some(ProxyError::RequestFailed(
            "no mappable native input parts (only text/image content is supported)".to_string()
        ))
    );
}

#[test]
fn prompts() {
    let body = parse(r#"{"model":"m","system":"sys","messages":[{"role":"user","content":"hi"}]}"#);
    let request = prepare_native("http://[::1]", &body);
    assert!(request.is_err());
    let request = prepare_native("http://127.0.0.2", &body).ok().unwrap();
    assert_eq!(
        to_text(&prompt_body(&request)),
        r#"{"model":{"modelID":"m","providerID":"opencode"},"parts":[{"text":"hi","type":"text"}],"system":"sys"}"#
    );
    let body = parse(r#"{"messages":[{"role":"user","content":"hi"}]}"#);
    let request = prepare_native("http://127.0.0.2", &body).ok().unwrap();
    assert_eq!(
        to_text(&prompt_body(&request)),
        r#"{"model":{"modelID":"","providerID":"opencode"},"parts":[{"text":"hi","type":"text"}]}"#
    );
}

#[test]
fn session_ids() {
    assert_eq!(created_session_id(&parse(r#"{"id":"ses_1"}"#)), Ok("ses_1".to_string()));
    assert_eq!(
        created_session_id(&parse(r#"{"id":5}"#)),
        Err(ProxyError::RequestFailed("native session response missing id".to_string()))
    );
}
