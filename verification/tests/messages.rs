use oplire::config::Backend;
use oplire::json::{Json, Number};
use oplire::json_text::to_text;
use oplire::proxy::messages::{RetryFlow, RetryStep, Route};
use oplire::proxy::messages::{accept_request, assemble_chunk, error_body, present_request_id};
use oplire::proxy::messages::{read_chunk, read_request, requested_model, route, wants_stream};
use oplire::proxy::upstream::ProxyError;

fn parse(text: &str) -> Json {
    read_request(text.as_bytes()).expect("valid JSON")
}

fn failure(step: RetryStep) -> String {
    match step {
        RetryStep::Fail(message) => message,
        _ => panic!("a failure"),
    }
}

#[test]
fn what_a_request_asks_for() {
    assert!(wants_stream(&parse(r#"{"stream":true}"#)));
    assert!(!wants_stream(&parse(r#"{"stream":false}"#)));
    assert!(!wants_stream(&parse(r#"{"stream":"true"}"#)));
    assert!(!wants_stream(&parse("{}")));
    assert_eq!(requested_model(&parse(r#"{"model":"m"}"#)), "m");
    assert_eq!(requested_model(&parse(r#"{"model":1}"#)), "unknown");
}

#[test]
fn routes() {
    assert_eq!(route(Backend::Native, true), Route::NativeStream);
    assert_eq!(route(Backend::Native, false), Route::NativeUnary);
    assert_eq!(route(Backend::Openai, true), Route::OpenaiStream);
    assert_eq!(route(Backend::Openai, false), Route::OpenaiUnary);
}

#[test]
fn a_rate_limit_is_retried_a_bounded_number_of_times() {
    let mut flow = RetryFlow::new(2);
    assert!(matches!(flow.failed(ProxyError::RateLimited), RetryStep::Reset(0)));
    assert!(matches!(flow.reset(true), RetryStep::Send));
    assert!(matches!(flow.failed(ProxyError::RateLimited), RetryStep::Reset(1)));
    assert!(matches!(flow.reset(true), RetryStep::Send));
    assert_eq!(
        failure(flow.failed(ProxyError::RateLimited)),
        "Rate limit exceeded after WARP resets"
    );
    assert_eq!(
        failure(RetryFlow::new(0).failed(ProxyError::RateLimited)),
        "Rate limit exceeded after WARP resets"
    );
}

#[test]
fn a_failed_reset_ends_the_request() {
    let mut flow = RetryFlow::new(3);
    flow.failed(ProxyError::RateLimited);
    assert_eq!(failure(flow.reset(false)), "WARP reset failed, rate limit still active");
}

#[test]
fn other_errors_are_told() {
    let mut flow = RetryFlow::new(3);
    assert_eq!(
        failure(flow.failed(ProxyError::RequestFailed("boom".to_string()))),
        "Upstream error: boom"
    );
}

#[test]
fn error_bodies() {
    assert_eq!(
        to_text(&error_body("a\"b")),
        r#"{"error":{"code":"internal_error","message":"a\"b","type":"api_error"}}"#
    );
}

#[test]
fn request_ids() {
    let id = present_request_id();
    assert!(id.starts_with("req_"));
    assert!(id["req_".len()..].parse::<u64>().unwrap() > 1_600_000_000_000);
}

#[test]
fn chunks_are_split_into_lines() {
    let (whole, lines) = read_chunk(b"data: a\r\n\ndata: b");
    assert_eq!(whole, "data: a\r\n\ndata: b");
    assert_eq!(lines, vec!["data: a", "", "data: b"]);
    let (whole, lines) = read_chunk(b"x\xff\ny");
    assert_eq!(whole, "x\u{fffd}\ny");
    assert_eq!(lines, vec!["x\u{fffd}", "y"]);
}

#[test]
fn converted_lines_replace_the_chunk() {
    let whole = "in".to_string();
    assert_eq!(
        assemble_chunk(whole.clone(), &vec![Some("a".to_string()), None, Some("b".to_string())]),
        "ab"
    );
    assert_eq!(assemble_chunk(whole.clone(), &vec![None, Some(String::new())]), "in");
    assert_eq!(assemble_chunk(whole, &vec![]), "in");
}

#[test]
fn requests_are_read_from_their_bytes() {
    assert_eq!(
        read_request(r#" {"b":[1,-2,1.50,null,true],"a":"é\n"} "#.as_bytes()),
        Ok(Json::Obj(vec![
            ("a".to_string(), Json::Str("é\n".to_string())),
            (
                "b".to_string(),
                Json::Arr(vec![
                    Json::Num(Number::Unsigned(1)),
                    Json::Num(Number::Negative(-2)),
                    Json::Num(Number::Float("1.5".to_string())),
                    Json::Null,
                    Json::Bool(true),
                ])
            ),
        ]))
    );
    assert_eq!(
        read_request(b"[18446744073709551615,18446744073709551616]"),
        Ok(Json::Arr(vec![
            Json::Num(Number::Unsigned(u64::MAX)),
            Json::Num(Number::Float("1.8446744073709552e+19".to_string())),
        ]))
    );
    assert_eq!(read_request(br#"{"a":1,"a":2}"#), read_request(br#"{"a":2}"#));
}

#[test]
fn a_body_that_is_not_json_is_told() {
    assert_eq!(
        read_request(b""),
        Err("Invalid JSON: EOF while parsing a value at line 1 column 0".to_string())
    );
    for bytes in [&b"{\"a\":}"[..], b"\xff", b"{} x", b"[1,"] {
        let reason = serde_json::from_slice::<serde_json::Value>(bytes).unwrap_err();
        assert_eq!(read_request(bytes), Err(format!("Invalid JSON: {}", reason)));
    }
    assert_eq!(accept_request(Err("eof".to_string())), Err("Invalid JSON: eof".to_string()));
    assert_eq!(accept_request(Ok(Json::Null)), Ok(Json::Null));
}
