use oplire::json::Json;
use oplire::json_text::to_text;
use oplire::proxy::messages::read_request;
use oplire::transform::native::{anthropic_image_to_file_part, moment_id_text};
use oplire::transform::native::{native_response_with_id, text_part_json, uuid_short};
use oplire::transform::{anthropic_to_native_parts, native_response_to_anthropic};

fn parse(text: &str) -> Json {
    read_request(text.as_bytes()).expect("valid JSON")
}

fn texts(parts: &[Json]) -> Vec<String> {
    parts.iter().map(to_text).collect()
}

fn content_of(info: &str, parts: &str) -> String {
    let message = native_response_with_id("msg_1", &parse(info), &parse(parts), "m");
    to_text(message.get("content").unwrap())
}

fn stop_reason_of(info: &str, parts: &str) -> String {
    let message = native_response_with_id("msg_1", &parse(info), &parse(parts), "m");
    message.str_at("stop_reason").unwrap().to_string()
}

#[test]
fn a_plain_request() {
    let r = anthropic_to_native_parts(&parse(
        r#"{"model":"big-pickle","system":"be brief","messages":[{"role":"user","content":"hi"}]}"#,
    ));
    assert_eq!(r.model_id, "big-pickle");
    assert_eq!(r.system.as_deref(), Some("be brief"));
    assert_eq!(texts(&r.parts), vec![r#"{"text":"hi","type":"text"}"#]);
    assert_eq!(r.dropped_tool_results, 0);
    assert_eq!(r.dropped_tools, 0);
}

#[test]
fn an_empty_request() {
    let r = anthropic_to_native_parts(&parse("{}"));
    assert_eq!(r.model_id, "");
    assert_eq!(r.system, None);
    assert!(r.parts.is_empty());
    let r = anthropic_to_native_parts(&parse("[1]"));
    assert!(r.parts.is_empty());
}

#[test]
fn system_blocks_are_joined_by_lines() {
    let r = anthropic_to_native_parts(&parse(
        r#"{"system":[{"type":"text","text":"one"},{"type":"image"},{"text":"two"}]}"#,
    ));
    assert_eq!(r.system.as_deref(), Some("one\ntwo"));
    assert_eq!(anthropic_to_native_parts(&parse(r#"{"system":""}"#)).system, None);
    assert_eq!(anthropic_to_native_parts(&parse(r#"{"system":[]}"#)).system, None);
    assert_eq!(anthropic_to_native_parts(&parse(r#"{"system":[{"text":""}]}"#)).system, None);
    assert_eq!(anthropic_to_native_parts(&parse(r#"{"system":3}"#)).system, None);
}

#[test]
fn only_text_and_file_parts_are_sent() {
    let r = anthropic_to_native_parts(&parse(
        r#"{"messages":[
            {"role":"user","content":[
                {"type":"text","text":"look"},
                {"type":"text","text":""},
                {"type":"image","source":{"type":"base64","media_type":"image/jpeg","data":"QUJD"}},
                {"type":"tool_result","tool_use_id":"t1","content":"out"},
                {"type":"tool_use","id":"t1","name":"n","input":{}}
            ]},
            {"role":"assistant","content":"earlier reply"},
            {"role":"assistant","content":[{"type":"text","text":"earlier reply"}]},
            {"content":"no role"},
            {"role":"user","content":""}
        ]}"#,
    ));
    assert_eq!(
        texts(&r.parts),
        vec![
            r#"{"text":"look","type":"text"}"#,
            r#"{"mime":"image/jpeg","type":"file","url":"data:image/jpeg;base64,QUJD"}"#,
            r#"{"text":"no role","type":"text"}"#,
        ]
    );
    assert_eq!(r.dropped_tool_results, 1);
    for part in &r.parts {
        assert!(matches!(part.str_at("type"), Some("text") | Some("file")));
    }
}

#[test]
fn schemaless_tools_are_counted() {
    let r = anthropic_to_native_parts(&parse(
        r#"{"tools":[{"name":"a","input_schema":{}},{"name":"b"},{"name":"c","input_schema":null},7]}"#,
    ));
    assert_eq!(r.dropped_tools, 2);
}

#[test]
fn images() {
    let f = |s: &str| anthropic_image_to_file_part(&parse(s)).map(|p| to_text(&p));
    assert_eq!(
        f(r#"{"source":{"type":"base64","data":"AA=="}}"#).as_deref(),
        Some(r#"{"mime":"image/png","type":"file","url":"data:image/png;base64,AA=="}"#)
    );
    assert_eq!(
        f(r#"{"source":{"type":"url","url":"https://x/y.gif"}}"#).as_deref(),
        Some(r#"{"mime":"image/png","type":"file","url":"https://x/y.gif"}"#)
    );
    assert_eq!(f(r#"{"source":{"type":"base64","data":""}}"#), None);
    assert_eq!(f(r#"{"source":{"type":"base64"}}"#), None);
    assert_eq!(f(r#"{"source":{"type":"url","url":""}}"#), None);
    assert_eq!(f(r#"{"source":{"type":"file"}}"#), None);
    assert_eq!(f(r#"{"source":{}}"#), None);
    assert_eq!(f(r#"{}"#), None);
}

#[test]
fn a_whole_reply() {
    let message = native_response_with_id(
        "msg_7",
        &parse(r#"{"finish":"stop","tokens":{"input":12,"output":34}}"#),
        &parse(r#"[{"type":"step-start"},{"type":"text","text":"hello"}]"#),
        "big-pickle",
    );
    assert_eq!(
        to_text(&message),
        concat_lines(&[
            r#"{"content":[{"text":"hello","type":"text"}],"id":"msg_7","model":"big-pickle","#,
            r#""role":"assistant","stop_reason":"end_turn","stop_sequence":null,"type":"message","#,
            r#""usage":{"input_tokens":12,"output_tokens":34}}"#,
        ])
    );
}

fn concat_lines(lines: &[&str]) -> String {
    lines.join("")
}

#[test]
fn tools_come_back_with_their_results() {
    let content = content_of(
        "{}",
        r#"[
            {"type":"tool","callID":"c1","tool":"bash","state":{"status":"completed","input":{"cmd":"ls"},"output":"a\nb"}},
            {"type":"tool","callID":"c2","tool":"read","state":{"status":"error","error":"nope"}},
            {"type":"tool","callID":"c3","tool":"grep","state":{"status":"error"}},
            {"type":"tool","callID":"c4","tool":"edit","state":{"status":"running","input":[1]}},
            {"type":"tool","callID":"","tool":"x","state":{"status":"completed"}},
            {"type":"tool","callID":"c5","state":{"status":"completed"}}
        ]"#,
    );
    assert_eq!(
        content,
        concat_lines(&[
            r#"[{"id":"c1","input":{"cmd":"ls"},"name":"bash","type":"tool_use"},"#,
            r#"{"content":"a\nb","tool_use_id":"c1","type":"tool_result"},"#,
            r#"{"id":"c2","input":{},"name":"read","type":"tool_use"},"#,
            r#"{"content":"nope","is_error":true,"tool_use_id":"c2","type":"tool_result"},"#,
            r#"{"id":"c3","input":{},"name":"grep","type":"tool_use"},"#,
            r#"{"content":"unknown error","is_error":true,"tool_use_id":"c3","type":"tool_result"},"#,
            r#"{"id":"c4","input":[1],"name":"edit","type":"tool_use"}]"#,
        ])
    );
}

#[test]
fn every_tool_result_follows_its_tool_use() {
    let message = native_response_with_id(
        "id",
        &Json::Null,
        &parse(
            r#"[
            {"type":"text","text":"x"},
            {"type":"tool","callID":"c1","tool":"t","state":{"status":"completed"}},
            {"type":"reasoning","text":"y"},
            {"type":"tool","callID":"c2","tool":"t","state":{"status":"error"}}
        ]"#,
        ),
        "m",
    );
    let blocks = message.arr_at("content").unwrap();
    assert_eq!(blocks.len(), 6);
    for i in 0..blocks.len() {
        if blocks[i].str_at("type") == Some("tool_result") {
            assert_eq!(blocks[i - 1].str_at("type"), Some("tool_use"));
            assert_eq!(blocks[i - 1].str_at("id"), blocks[i].str_at("tool_use_id"));
        }
    }
}

#[test]
fn empty_reasoning_and_text_are_dropped() {
    assert_eq!(
        content_of(
            "{}",
            r#"[{"type":"reasoning","text":""},{"type":"text","text":""},{"type":"reasoning","text":"hm"},{"type":"reasoning"}]"#
        ),
        r#"[{"thinking":"hm","type":"thinking"}]"#
    );
}

#[test]
fn an_answer_without_content_has_one_empty_text() {
    assert_eq!(content_of("{}", "[]"), r#"[{"text":"","type":"text"}]"#);
    assert_eq!(content_of("{}", "null"), r#"[{"text":"","type":"text"}]"#);
    assert_eq!(
        content_of("{}", r#"[{"type":"patch"},{"type":"snapshot"},{"type":"file"},{}]"#),
        r#"[{"text":"","type":"text"}]"#
    );
}

#[test]
fn stop_reasons() {
    let tool = r#"[{"type":"tool","callID":"c","tool":"t","state":{"status":"pending"}}]"#;
    assert_eq!(stop_reason_of(r#"{"finish":"stop"}"#, "[]"), "end_turn");
    assert_eq!(stop_reason_of(r#"{"finish":"length"}"#, "[]"), "max_tokens");
    assert_eq!(stop_reason_of(r#"{"finish":"other"}"#, "[]"), "end_turn");
    assert_eq!(stop_reason_of("{}", "[]"), "end_turn");
    assert_eq!(stop_reason_of(r#"{"finish":"stop"}"#, tool), "tool_use");
    assert_eq!(stop_reason_of("{}", tool), "tool_use");
    assert_eq!(stop_reason_of(r#"{"finish":"length"}"#, tool), "tool_use");
}

#[test]
fn usage_defaults_to_zero() {
    let m = native_response_with_id("i", &parse(r#"{"tokens":{"input":-1}}"#), &Json::Null, "m");
    assert_eq!(to_text(m.get("usage").unwrap()), r#"{"input_tokens":0,"output_tokens":0}"#);
}

#[test]
fn a_reply_gets_an_id_of_the_moment() {
    let m = native_response_to_anthropic(&Json::Null, &Json::Null, "m");
    let id = m.str_at("id").unwrap().to_string();
    assert!(id.starts_with("msg_"));
    assert!(id.len() >= 4 + 8 + 1);
    assert!(id[4..].chars().all(|c| c.is_ascii_digit() || ('a'..='f').contains(&c)));
    assert_eq!(moment_id_text(0x65a1b2c3, 0xff), "65a1b2c3ff");
    assert!(uuid_short().len() >= 9);
    assert_eq!(to_text(&text_part_json("x")), r#"{"text":"x","type":"text"}"#);
}
