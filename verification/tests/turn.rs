use oplire::json::Json;
use oplire::json_text::to_text;
use oplire::proxy::messages::read_request;
use oplire::transform::collect_turn_parts;
use oplire::transform::turn::{message_id_set, MessageIds};

fn parse(text: &str) -> Json {
    read_request(text.as_bytes()).expect("valid JSON")
}

const HISTORY: &str = r#"[
    {"info":{"id":"m1","role":"user"},"parts":[{"id":"p1","type":"text","text":"old question"}]},
    {"info":{"id":"m2","role":"assistant","finish":"stop","tokens":{"input":1,"output":2}},
     "parts":[{"id":"p2","type":"text","text":"old reply"}]}
]"#;

fn baseline(ids: &[&str]) -> MessageIds {
    let mut set = MessageIds::new();
    for id in ids {
        set.insert(id);
    }
    set
}

fn collect(messages: &str, ids: &[&str]) -> (String, Option<String>, bool) {
    let (parts, info, done) = collect_turn_parts(&parse(messages), &baseline(ids));
    (to_text(&Json::Arr(parts)), info.map(|i| to_text(&i)), done)
}

#[test]
fn the_ids_of_a_list() {
    let ids = message_id_set(&parse(HISTORY));
    assert!(ids.contains("m1"));
    assert!(ids.contains("m2"));
    assert!(!ids.contains("m3"));
    assert!(!ids.contains(""));
    let ids = message_id_set(&parse(r#"[{"info":{}},{"info":{"id":3}},{},5]"#));
    assert!(!ids.contains(""));
    assert!(!message_id_set(&parse(r#"{"info":{"id":"m1"}}"#)).contains("m1"));
}

#[test]
fn the_reply_of_an_earlier_turn_is_not_shown() {
    let messages = parse(HISTORY);
    let ids = message_id_set(&messages);
    let (parts, info, done) = collect_turn_parts(&messages, &ids);
    assert!(parts.is_empty());
    assert!(info.is_none());
    assert!(!done);
}

#[test]
fn the_turn_after_the_first_new_user_message() {
    let list = r#"[
        {"info":{"id":"m1","role":"user"}},
        {"info":{"id":"m2","role":"assistant","finish":"stop"},"parts":[{"id":"old"}]},
        {"info":{"id":"m3","role":"user"}},
        {"info":{"id":"m4","role":"assistant","finish":"tool-calls"},"parts":[{"id":"a"},{"id":"b"}]},
        {"info":{"id":"m5","role":"user"}},
        {"info":{"id":"m6","role":"assistant"},"parts":[{"id":"c"}]},
        {"info":{"id":"m7","role":"system"},"parts":[{"id":"d"}]},
        {"info":{"role":"assistant"},"parts":[{"id":"e"}]},
        {"parts":[{"id":"f"}]}
    ]"#;
    assert_eq!(
        collect(list, &["m1", "m2"]),
        (
            r#"[{"id":"a"},{"id":"b"},{"id":"c"}]"#.to_string(),
            Some(r#"{"id":"m6","role":"assistant"}"#.to_string()),
            false
        )
    );
}

#[test]
fn a_turn_is_over_with_a_finish() {
    let list = |finish: &str| {
        format!(
            r#"[{{"info":{{"id":"u","role":"user"}}}},{{"info":{{"id":"a","role":"assistant","finish":{}}}}}]"#,
            finish
        )
    };
    assert!(collect(&list("\"stop\""), &[]).2);
    assert!(collect(&list("\"length\""), &[]).2);
    assert!(collect(&list("false"), &[]).2);
    assert!(!collect(&list("null"), &[]).2);
}

#[test]
fn without_a_new_user_message_only_the_new_reply_counts() {
    let list = r#"[
        {"info":{"id":"m1","role":"user"}},
        {"info":{"id":"m2","role":"assistant","finish":"stop"},"parts":[{"id":"old"}]},
        {"info":{"id":"m3","role":"assistant","finish":"stop"},"parts":[{"id":"new"}]}
    ]"#;
    assert_eq!(
        collect(list, &["m1", "m2"]),
        (
            r#"[{"id":"new"}]"#.to_string(),
            Some(r#"{"finish":"stop","id":"m3","role":"assistant"}"#.to_string()),
            true
        )
    );
}

#[test]
fn lists_without_a_turn() {
    let nothing = ("[]".to_string(), None, false);
    assert_eq!(collect("{}", &[]), nothing);
    assert_eq!(collect("[]", &[]), nothing);
    assert_eq!(
        collect(r#"[{"info":{"id":"a","role":"assistant","finish":"stop"},"parts":[{}]}]"#, &[]),
        nothing
    );
}

#[test]
fn the_history_makes_no_difference() {
    let turn = r#"{"info":{"id":"m3","role":"user"}},{"info":{"id":"m4","role":"assistant"},"parts":[{"id":"x"}]}"#;
    let alone = format!("[{}]", turn);
    let reused = format!("{},{}]", HISTORY.trim_end_matches(']'), turn);
    assert_eq!(collect(&reused, &["m1", "m2"]), collect(&alone, &["m1", "m2"]));
}
