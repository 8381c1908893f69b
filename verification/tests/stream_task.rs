use oplire::json::Json;
use oplire::proxy::messages::read_request;
use oplire::proxy::reply::native_answer;
use oplire::proxy::stream_task::{StreamRun, StreamStep};
use oplire::transform::MAX_POLLS;
use oplire::transform::turn::MessageIds;
use serde_json::Value;

fn parse(text: &str) -> Json {
    read_request(text.as_bytes()).expect("valid JSON")
}

const LANDED: &str = r#"{"info":{"id":"u","role":"user"}}"#;

fn list(reply: &str) -> Json {
    parse(&format!("[{},{}]", LANDED, reply))
}

fn names(frames: &[String]) -> Vec<String> {
    frames
        .iter()
        .map(|f| f.lines().next().unwrap()["event: ".len()..].to_string())
        .collect()
}

#[test]
fn a_whole_stream() {
    let (mut run, first) = StreamRun::start_with_id("msg_1", "m", MessageIds::new());
    assert!(first.starts_with("event: message_start\n"));
    assert!(first.contains("\"id\":\"msg_1\""));

    let (frames, step) = run.polled(None).unwrap();
    assert!(frames.is_empty());
    assert_eq!(step, StreamStep::PollLater);

    let growing = list(r#"{"info":{"id":"a","role":"assistant"},"parts":[{"id":"p","type":"text","text":"He"}]}"#);
    let (frames, step) = run.polled(Some(&growing)).unwrap();
    assert_eq!(names(&frames), vec!["content_block_start", "content_block_delta"]);
    assert_eq!(step, StreamStep::PollLater);
    let (frames, _) = run.polled(Some(&growing)).unwrap();
    assert!(frames.is_empty());

    let finished = list(
        r#"{"info":{"id":"a","role":"assistant","finish":"stop","tokens":{"input":3,"output":4}},
            "parts":[{"id":"p","type":"text","text":"Hello"}]}"#,
    );
    let (frames, step) = run.polled(Some(&finished)).unwrap();
    assert_eq!(names(&frames), vec!["content_block_delta"]);
    assert_eq!(step, StreamStep::Flush);

    assert!(run.flushed(Some(&finished)).unwrap().is_empty());
    let end = run.finish();
    assert_eq!(names(&end), vec!["content_block_stop", "message_delta", "message_stop"]);
    assert_eq!(
        end[1],
        [
            "event: message_delta\ndata: {\"delta\":{\"stop_reason\":\"end_turn\",\"stop_sequence\":null},",
            "\"type\":\"message_delta\",\"usage\":{\"input_tokens\":3,\"output_tokens\":4}}\n\n",
        ]
        .join("")
    );
    assert_eq!(end[2], "event: message_stop\ndata: {\"type\":\"message_stop\"}\n\n");
}

#[test]
fn the_polls_are_bounded() {
    let (mut run, _) = StreamRun::start("m", MessageIds::new());
    for n in 1..=MAX_POLLS {
        let (_, step) = run.polled(None).unwrap();
        if n < MAX_POLLS {
            assert_eq!(step, StreamStep::PollLater);
        } else {
            assert_eq!(step, StreamStep::FlushLater);
        }
    }
    assert!(run.flushed(None).unwrap().is_empty());
    let end = run.finish();
    assert_eq!(names(&end), vec!["message_delta", "message_stop"]);
    assert!(end[0].contains("\"stop_reason\":\"end_turn\""));
    assert!(end[0].contains("\"input_tokens\":0,\"output_tokens\":0"));
}

#[test]
fn the_last_reading_adds_what_was_missed() {
    let (mut run, _) = StreamRun::start("m", MessageIds::new());
    run.polled(Some(&list(r#"{"info":{"id":"a","role":"assistant","finish":"stop"}}"#)));
    let frames = run
        .flushed(Some(&list(
            r#"{"info":{"id":"a","role":"assistant","finish":"stop"},
                "parts":[{"id":"t","type":"tool","callID":"c","tool":"x","state":{"status":"completed"}}]}"#,
        )))
        .unwrap();
    assert_eq!(names(&frames), vec!["content_block_start", "content_block_delta"]);
    let end = run.finish();
    assert!(end[1].contains("\"stop_reason\":\"tool_use\""));
}

#[test]
fn old_messages_are_passed_over() {
    let mut ids = MessageIds::new();
    ids.insert("u");
    ids.insert("a");
    let (mut run, _) = StreamRun::start("m", ids);
    let old = list(
        r#"{"info":{"id":"a","role":"assistant","finish":"stop","tokens":{"input":9,"output":9}},
            "parts":[{"id":"p","type":"text","text":"old"}]}"#,
    );
    let (frames, step) = run.polled(Some(&old)).unwrap();
    assert!(frames.is_empty());
    assert_eq!(step, StreamStep::PollLater);
    assert!(run.finish()[0].contains("\"input_tokens\":0"));
}

#[test]
fn a_reading_without_the_turn_keeps_the_last_info() {
    let (mut run, _) = StreamRun::start("m", MessageIds::new());
    run.polled(Some(&list(r#"{"info":{"id":"a","role":"assistant","tokens":{"input":8,"output":1}}}"#)));
    run.polled(Some(&parse("[]")));
    assert!(run.finish()[0].contains("\"input_tokens\":8"));
}

#[test]
fn a_stream_starts_with_an_id_of_the_moment() {
    let (_, first) = StreamRun::start("m", MessageIds::new());
    assert!(first.contains("\"id\":\"msg_"));
}

#[test]
fn a_stream_and_a_unary_answer_agree() {
    let reply = r#"{"info":{"id":"a","role":"assistant","parentID":"u","finish":"length","tokens":{"input":11,"output":22}},
        "parts":[
            {"id":"r","type":"reasoning","text":"hm"},
            {"id":"t","type":"tool","callID":"c","tool":"bash","state":{"status":"error","input":{"a":1}}},
            {"id":"p","type":"text","text":"done"},
            {"id":"s","type":"step-finish"}
        ]}"#;
    let (mut run, _) = StreamRun::start("m", MessageIds::new());
    let (frames, _) = run.polled(Some(&list(reply))).unwrap();
    let end = run.finish();
    let answer = native_answer(&parse(reply), Some(&list(reply)), "m");

    let data = |f: &String| -> Value {
        serde_json::from_str(f.lines().nth(1).unwrap().strip_prefix("data: ").unwrap()).unwrap()
    };
    let delta = data(&end[end.len() - 2]);
    assert_eq!(delta["delta"]["stop_reason"].as_str(), answer.str_at("stop_reason"));
    assert_eq!(delta["usage"]["input_tokens"].as_u64(), Some(answer.u64_in("usage", "input_tokens")));
    assert_eq!(delta["usage"]["output_tokens"].as_u64(), Some(answer.u64_in("usage", "output_tokens")));

    let opened: Vec<String> = frames
        .iter()
        .map(data)
        .filter(|d| d["type"] == "content_block_start")
        .map(|d| d["content_block"]["type"].as_str().unwrap().to_string())
        .collect();
    let shown: Vec<String> = answer
        .arr_at("content")
        .unwrap()
        .iter()
        .map(|b| b.str_at("type").unwrap().to_string())
        .filter(|kind| kind != "tool_result")
        .collect();
    assert_eq!(opened, shown);
    assert_eq!(shown, vec!["thinking", "tool_use", "text"]);
}

#[test]
fn a_settled_tool_is_sent_with_its_whole_input() {
    let tool = |state: &str| {
        list(&format!(
            r#"{{"info":{{"id":"a","role":"assistant"}},"parts":[
                {{"id":"p","type":"text","text":"x"}},
                {{"id":"t","type":"tool","callID":"c","tool":"bash","state":{}}}]}}"#,
            state
        ))
    };
    let (mut run, _) = StreamRun::start("m", MessageIds::new());
    let (first, _) = run.polled(Some(&tool(r#"{"status":"pending"}"#))).unwrap();
    assert_eq!(first.len(), 2);
    let settled = tool(r#"{"status":"completed","input":{"cmd":"ls \"a\"","n":[1,2]}}"#);
    let (second, _) = run.polled(Some(&settled)).unwrap();
    assert_eq!(names(&second), vec!["content_block_start", "content_block_delta"]);
    let data: Vec<Value> = second
        .iter()
        .map(|f| serde_json::from_str(&f.lines().nth(1).unwrap()["data: ".len()..]).unwrap())
        .collect();
    assert_eq!(data[0]["content_block"]["id"], "c");
    assert_eq!(data[0]["content_block"]["name"], "bash");
    assert_eq!(data[0]["index"], data[1]["index"]);
    let input: Value =
        serde_json::from_str(data[1]["delta"]["partial_json"].as_str().unwrap()).unwrap();
    assert_eq!(input["cmd"], "ls \"a\"");
    assert_eq!(input["n"][1], 2);
    let later = tool(r#"{"status":"completed","input":{"cmd":"other"}}"#);
    assert!(run.polled(Some(&later)).unwrap().0.is_empty());
}
