use oplire::json::Json;
use oplire::proxy::messages::read_request;
use oplire::text::split_lines;
use oplire::transform::native_stream::{block_delta_event, block_start_event, block_stop_event, frame};
use oplire::transform::{MAX_POLLS, POLL_INTERVAL_MS};
use oplire::transform::{diff_turn_parts, message_delta_event, message_start_event};
use oplire::transform::{message_stop_event, stop_open_blocks, StreamTracker};
use serde_json::Value;

fn parse(text: &str) -> Json {
    read_request(text.as_bytes()).expect("valid JSON")
}

fn diff(tracker: &mut StreamTracker, parts: &str) -> Vec<String> {
    match parse(parts) {
        Json::Arr(items) => diff_turn_parts(tracker, &items),
        _ => panic!("an array"),
    }
}

fn data_of(frame: &str) -> Value {
    let lines = split_lines(frame);
    assert_eq!(lines.len(), 3, "{:?}", frame);
    assert!(lines[0].starts_with("event: "));
    assert_eq!(lines[2], "");
    let value: Value = serde_json::from_str(lines[1].strip_prefix("data: ").unwrap()).unwrap();
    assert_eq!(value.get("type").unwrap().as_str().unwrap(), &lines[0]["event: ".len()..]);
    value
}

#[test]
fn frames() {
    assert_eq!(frame("ping", "{}"), "event: ping\ndata: {}\n\n");
    assert_eq!(
        block_start_event(3, "{}"),
        "event: content_block_start\ndata: {\"type\":\"content_block_start\",\"index\":3,\"content_block\":{}}\n\n"
    );
    assert_eq!(
        block_delta_event(10, "{}"),
        "event: content_block_delta\ndata: {\"type\":\"content_block_delta\",\"index\":10,\"delta\":{}}\n\n"
    );
    assert_eq!(
        block_stop_event(0),
        "event: content_block_stop\ndata: {\"type\":\"content_block_stop\",\"index\":0}\n\n"
    );
}

#[test]
fn message_frames() {
    assert_eq!(
        message_start_event("msg_1", "m"),
        [
            "event: message_start\ndata: {\"message\":{\"content\":[],\"id\":\"msg_1\",\"model\":\"m\",",
            "\"role\":\"assistant\",\"stop_reason\":null,\"stop_sequence\":null,\"type\":\"message\",",
            "\"usage\":{\"input_tokens\":0,\"output_tokens\":0}},\"type\":\"message_start\"}\n\n",
        ]
        .join("")
    );
    assert_eq!(
        message_delta_event("end_turn", 5, 6),
        [
            "event: message_delta\ndata: {\"delta\":{\"stop_reason\":\"end_turn\",\"stop_sequence\":null},",
            "\"type\":\"message_delta\",\"usage\":{\"input_tokens\":5,\"output_tokens\":6}}\n\n",
        ]
        .join("")
    );
    assert_eq!(
        message_stop_event(),
        "event: message_stop\ndata: {\"type\":\"message_stop\"}\n\n"
    );
    data_of(&message_start_event("a\nb", "c\"d"));
}

#[test]
fn text_opens_once_and_then_grows() {
    let mut t = StreamTracker::new();
    assert_eq!(
        diff(&mut t, r#"[{"id":"p","type":"text","text":"Hel"}]"#),
        vec![
            "event: content_block_start\ndata: {\"type\":\"content_block_start\",\"index\":0,\"content_block\":{\"type\":\"text\",\"text\":\"\"}}\n\n",
            "event: content_block_delta\ndata: {\"type\":\"content_block_delta\",\"index\":0,\"delta\":{\"type\":\"text_delta\",\"text\":\"Hel\"}}\n\n",
        ]
    );
    assert_eq!(
        diff(&mut t, r#"[{"id":"p","type":"text","text":"Hello\n\"é"}]"#),
        vec![
            "event: content_block_delta\ndata: {\"type\":\"content_block_delta\",\"index\":0,\"delta\":{\"type\":\"text_delta\",\"text\":\"lo\\n\\\"é\"}}\n\n",
        ]
    );
    assert!(diff(&mut t, r#"[{"id":"p","type":"text","text":"Hello\n\"é"}]"#).is_empty());
    assert!(diff(&mut t, r#"[{"id":"p","type":"text","text":"He"}]"#).is_empty());
    assert!(!t.saw_tool_use);
    assert_eq!(t.open_indexes(), vec![0]);
}

#[test]
fn reasoning_opens_a_thinking_block() {
    let mut t = StreamTracker::default();
    assert!(diff(&mut t, r#"[{"id":"r","type":"reasoning","text":""}]"#).is_empty());
    assert_eq!(
        diff(&mut t, r#"[{"id":"r","type":"reasoning","text":"hm"}]"#),
        vec![
            "event: content_block_start\ndata: {\"type\":\"content_block_start\",\"index\":0,\"content_block\":{\"type\":\"thinking\",\"thinking\":\"\"}}\n\n",
            "event: content_block_delta\ndata: {\"type\":\"content_block_delta\",\"index\":0,\"delta\":{\"type\":\"thinking_delta\",\"thinking\":\"hm\"}}\n\n",
        ]
    );
}

#[test]
fn a_tool_waits_until_it_has_settled() {
    let mut t = StreamTracker::new();
    assert!(diff(&mut t, r#"[{"id":"p","type":"tool","callID":"c","tool":"bash","state":{"status":"running"}}]"#).is_empty());
    assert!(!t.saw_tool_use);
    let settled = r#"[{"id":"p","type":"tool","callID":"c\"","tool":"bash","state":{"status":"completed","input":{"b":"\n","a":1}}}]"#;
    assert_eq!(
        diff(&mut t, settled),
        vec![
            "event: content_block_start\ndata: {\"type\":\"content_block_start\",\"index\":0,\"content_block\":{\"type\":\"tool_use\",\"id\":\"c\\\"\",\"name\":\"bash\",\"input\":{}}}\n\n",
            "event: content_block_delta\ndata: {\"type\":\"content_block_delta\",\"index\":0,\"delta\":{\"type\":\"input_json_delta\",\"partial_json\":\"{\\\"a\\\":1,\\\"b\\\":\\\"\\\\n\\\"}\"}}\n\n",
        ]
    );
    assert!(t.saw_tool_use);
    assert!(diff(&mut t, settled).is_empty());
}

#[test]
fn a_failed_tool_without_input_gets_an_empty_object() {
    let mut t = StreamTracker::new();
    let frames = diff(&mut t, r#"[{"id":"p","type":"tool","callID":"c","tool":"x","state":{"status":"error"}}]"#);
    assert_eq!(frames.len(), 2);
    let delta = data_of(&frames[1]);
    assert_eq!(delta["delta"]["partial_json"], Value::String("{}".to_string()));
}

#[test]
fn other_parts_are_dropped() {
    let mut t = StreamTracker::new();
    assert!(diff(
        &mut t,
        r#"[
            {"id":"a","type":"step-start"},
            {"id":"b","type":"patch"},
            {"id":"","type":"text","text":"x"},
            {"type":"text","text":"x"},
            {"id":"c","type":"text"},
            {"id":"d","type":"tool","callID":"","tool":"x","state":{"status":"completed"}},
            {"id":"e","type":"tool","callID":"x","state":{"status":"completed"}},
            {"id":"f"}
        ]"#
    )
    .is_empty());
    assert!(t.open_indexes().is_empty());
}

#[test]
fn every_opened_block_is_stopped_in_order() {
    let mut t = StreamTracker::new();
    let frames = diff(
        &mut t,
        r#"[
            {"id":"a","type":"text","text":"x"},
            {"id":"b","type":"reasoning","text":"y"},
            {"id":"c","type":"tool","callID":"k","tool":"t","state":{"status":"completed"}}
        ]"#,
    );
    let started: Vec<u64> = frames
        .iter()
        .map(|f| data_of(f))
        .filter(|d| d["type"] == "content_block_start")
        .map(|d| d["index"].as_u64().unwrap())
        .collect();
    let stopped: Vec<u64> = stop_open_blocks(&mut t)
        .iter()
        .map(|f| data_of(f)["index"].as_u64().unwrap())
        .collect();
    assert_eq!(started, vec![0, 1, 2]);
    assert_eq!(stopped, started);
    assert_eq!(stop_open_blocks(&mut StreamTracker::new()), Vec::<String>::new());
}

#[test]
fn a_block_whose_part_changes_its_kind_is_stopped_too() {
    let mut t = StreamTracker::new();
    diff(&mut t, r#"[{"id":"a","type":"text","text":"x"}]"#);
    diff(&mut t, r#"[{"id":"a","type":"tool","callID":"k","tool":"t","state":{"status":"completed"}}]"#);
    assert_eq!(t.open_indexes(), vec![0, 1]);
    assert_eq!(stop_open_blocks(&mut t).len(), 2);
}

#[test]
fn the_deltas_of_a_block_make_the_whole_text() {
    let whole = "Grüße,\n\"Welt\" \u{1F600} \\ end";
    let mut t = StreamTracker::new();
    let mut got = String::new();
    let count = whole.chars().count();
    for n in 0..=count {
        let shown: String = whole.chars().take(n).collect();
        let part = Json::Obj(vec![
            ("id".to_string(), Json::Str("p".to_string())),
            ("text".to_string(), Json::Str(shown)),
            ("type".to_string(), Json::Str("text".to_string())),
        ]);
        for f in diff_turn_parts(&mut t, &[part]) {
            let d = data_of(&f);
            if d["type"] == "content_block_delta" {
                got.push_str(d["delta"]["text"].as_str().unwrap());
            }
        }
    }
    assert_eq!(got, whole);
}

#[test]
fn the_polls_stay_below_two_minutes() {
    assert_eq!(MAX_POLLS, 340);
    assert_eq!(POLL_INTERVAL_MS, 300);
    assert_eq!(MAX_POLLS as u64 * POLL_INTERVAL_MS, 102_000);
}

const MIXED: &str = r#"[
    {"id":"a","type":"text","text":"x"},
    {"id":"b","type":"tool","callID":"k","tool":"t","state":{"status":"completed"}},
    {"id":"a","type":"text","text":"xyz"},
    {"id":"c","type":"reasoning","text":"why"},
    {"id":"b","type":"tool","callID":"k","tool":"t","state":{"status":"completed"}}
]"#;

#[test]
fn readings_one_after_the_other_add_up() {
    let parts = match parse(MIXED) {
        Json::Arr(items) => items,
        _ => vec![],
    };
    let at_once = diff_turn_parts(&mut StreamTracker::new(), &parts);
    for n in 0..=parts.len() {
        let mut t = StreamTracker::new();
        let mut frames = diff_turn_parts(&mut t, &parts[..n]);
        frames.extend(diff_turn_parts(&mut t, &parts[n..]));
        assert_eq!(frames, at_once);
    }
}

#[test]
fn deltas_follow_the_start_of_their_block() {
    let mut t = StreamTracker::new();
    let mut open = Vec::new();
    let mut tools = 0;
    for f in diff(&mut t, MIXED) {
        let d = data_of(&f);
        let index = d["index"].as_u64().unwrap();
        if d["type"] == "content_block_start" {
            assert_eq!(index, open.len() as u64);
            open.push(index);
            if d["content_block"]["type"] == "tool_use" {
                tools += 1;
            }
        } else {
            assert!(open.contains(&index));
        }
    }
    assert_eq!(open.len(), 3);
    assert_eq!(tools, 1);
}

#[test]
fn an_ordinary_reading_has_room() {
    let t = StreamTracker::new();
    assert!(t.has_room_for(&[]));
    if let Json::Arr(parts) = parse(MIXED) {
        assert!(t.has_room_for(&parts));
    }
    assert!(t.open_indexes().is_empty());
}
