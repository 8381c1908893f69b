use oplire::json::Json;
use oplire::json_text::to_text;
use oplire::proxy::messages::read_request;
use oplire::proxy::reply::{merge_turn, names_its_prompt, native_answer, prompt_info, turn_parts_via_history};

fn parse(text: &str) -> Json {
    read_request(text.as_bytes()).expect("valid JSON")
}

const HISTORY: &str = r#"[
    {"info":{"id":"u0","role":"user"}},
    {"info":{"id":"a0","role":"assistant"},"parts":[{"type":"text","text":"old"}]},
    {"info":{"id":"u1","role":"user"}},
    {"info":{"id":"a1","role":"assistant"},"parts":[{"type":"tool","callID":"c","tool":"t","state":{"status":"completed","output":"o"}}]},
    {"parts":[{"type":"text","text":"no info"}]},
    {"info":{"id":"u2","role":"user"},"parts":[{"type":"text","text":"user"}]},
    {"info":{"id":"a2","role":"assistant","finish":"stop","tokens":{"input":5,"output":6}},"parts":[{"type":"text","text":"done"}]}
]"#;

const PROMPT: &str =
    r#"{"info":{"id":"a2","parentID":"u1"},"parts":[{"type":"text","text":"done"}]}"#;

#[test]
fn the_parent_is_asked_for() {
    assert!(names_its_prompt(&parse(r#"{"parentID":"u"}"#)));
    assert!(!names_its_prompt(&parse(r#"{"parentID":1}"#)));
    assert!(!names_its_prompt(&Json::Null));
    assert_eq!(to_text(&prompt_info(&parse(PROMPT))), r#"{"id":"a2","parentID":"u1"}"#);
    assert_eq!(to_text(&prompt_info(&parse("{}"))), "null");
}

#[test]
fn the_turn_is_taken_from_the_history() {
    let (info, parts) =
        turn_parts_via_history(&parse(r#"{"parentID":"u1"}"#), &parse(HISTORY)).unwrap();
    assert_eq!(info.str_at("id"), Some("a2"));
    assert_eq!(
        to_text(&parts),
        r#"[{"callID":"c","state":{"output":"o","status":"completed"},"tool":"t","type":"tool"},{"text":"done","type":"text"}]"#
    );
}

#[test]
fn a_history_without_the_turn() {
    let info = parse(r#"{"parentID":"u9"}"#);
    assert!(turn_parts_via_history(&info, &parse(HISTORY)).is_none());
    assert!(turn_parts_via_history(&parse("{}"), &parse(HISTORY)).is_none());
    assert!(turn_parts_via_history(&parse(r#"{"parentID":"u1"}"#), &parse("{}")).is_none());
    assert!(turn_parts_via_history(
        &parse(r#"{"parentID":"u"}"#),
        &parse(r#"[{"info":{"id":"u","role":"user"}},{"info":{"id":"a","role":"assistant"},"parts":[]}]"#)
    )
    .is_none());
}

#[test]
fn the_answer_shows_the_tools_of_the_turn() {
    let answer = native_answer(&parse(PROMPT), Some(&parse(HISTORY)), "m");
    assert_eq!(answer.arr_at("content").unwrap().len(), 3);
    assert_eq!(answer.str_at("stop_reason"), Some("tool_use"));
    assert_eq!(answer.u64_in("usage", "input_tokens"), 5);
    assert_eq!(answer.u64_in("usage", "output_tokens"), 6);
}

#[test]
fn without_history_the_prompt_response_is_the_answer() {
    let answer = native_answer(&parse(PROMPT), None, "m");
    assert_eq!(
        to_text(answer.get("content").unwrap()),
        r#"[{"text":"done","type":"text"}]"#
    );
    assert_eq!(answer.str_at("model"), Some("m"));
    let (info, parts) = merge_turn(&parse("{}"), Some(&parse(HISTORY)));
    assert_eq!(info, Json::Null);
    assert_eq!(parts, Json::Null);
}
