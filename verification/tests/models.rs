use oplire::json::Json;
use oplire::json_text::to_text;
use oplire::proxy::messages::read_request;
use oplire::proxy::models::{join_with_initials, model_detail, model_entry_json, models_answer};
use oplire::proxy::models::{split_words, title, transform_models_to_anthropic, write_price};

fn parse(text: &str) -> Json {
    read_request(text.as_bytes()).expect("valid JSON")
}

fn entries(list: &str) -> Vec<String> {
    let page = transform_models_to_anthropic(&parse(list));
    page.arr_at("data").unwrap().iter().map(to_text).collect()
}

#[test]
fn names_made_from_ids() {
    assert_eq!(title("big-pickle"), "Big Pickle");
    assert_eq!(title("mimo-v2.5-free"), "Mimo V2.5 Free");
    assert_eq!(title("--a  b-\tc-"), "A B C");
    assert_eq!(title("ßeta-éa"), "SSeta Éa");
    assert_eq!(title("x\u{3000}y"), "X Y");
    assert_eq!(title("-"), "");
}

#[test]
fn a_bare_model() {
    assert_eq!(
        entries(r#"{"data":[{"id":"big-pickle"}]}"#),
        vec![r#"{"context_window":128000,"display_name":"Big Pickle","id":"big-pickle","input_price":0.0,"name":"Big Pickle","output_price":0.0,"type":"model"}"#]
    );
}

#[test]
fn a_full_model() {
    assert_eq!(
        entries(
            r#"{"data":[{"id":"m","name":"My Model","context_window":200000,"max_tokens":5,
                "input_price":3,"output_price":0.25,"created":17,"owned_by":null,"architecture":{"x":[1]},"extra":1}]}"#
        ),
        vec![r#"{"architecture":{"x":[1]},"context_window":200000,"created":17,"display_name":"My Model","id":"m","input_price":3.0,"name":"My Model","output_price":0.25,"owned_by":null,"type":"model"}"#]
    );
}

#[test]
fn prices_are_written_as_doubles() {
    assert_eq!(
        entries(r#"{"data":[{"id":"m","input_price":-2,"output_price":18446744073709551615}]}"#),
        vec![r#"{"context_window":128000,"display_name":"M","id":"m","input_price":-2.0,"name":"M","output_price":1.8446744073709552e+19,"type":"model"}"#]
    );
    assert_eq!(
        entries(r#"{"data":[{"id":"m","input_price":"3","output_price":null}]}"#),
        vec![r#"{"context_window":128000,"display_name":"M","id":"m","input_price":0.0,"name":"M","output_price":0.0,"type":"model"}"#]
    );
}

#[test]
fn context_windows() {
    assert!(entries(r#"{"data":[{"id":"m","max_tokens":5}]}"#)[0].contains(r#""context_window":5,"#));
    assert!(entries(r#"{"data":[{"id":"m","context_window":-5,"max_tokens":6}]}"#)[0]
        .contains(r#""context_window":6,"#));
}

#[test]
fn models_without_an_id_are_left_out() {
    let page = transform_models_to_anthropic(&parse(
        r#"{"data":[{"id":""},{"name":"x"},{"id":"a"},{"id":3},{"id":"b"},null]}"#,
    ));
    assert_eq!(page.arr_at("data").unwrap().len(), 2);
    assert_eq!(page.str_at("first_id"), Some("a"));
    assert_eq!(page.str_at("last_id"), Some("b"));
    assert_eq!(page.bool_at("has_more"), Some(false));
    for entry in page.arr_at("data").unwrap() {
        assert!(!entry.str_at("id").unwrap().is_empty());
    }
}

#[test]
fn an_empty_list() {
    assert_eq!(
        to_text(&transform_models_to_anthropic(&parse(r#"{"data":[]}"#))),
        r#"{"data":[],"first_id":"","has_more":false,"last_id":""}"#
    );
}

#[test]
fn without_a_list_the_free_models_are_offered() {
    let page = transform_models_to_anthropic(&parse(r#"{"data":"none"}"#));
    let data = page.arr_at("data").unwrap();
    assert_eq!(data.len(), 7);
    assert_eq!(page.str_at("first_id"), Some("big-pickle"));
    assert_eq!(page.str_at("last_id"), Some("nemotron-3.5-lightning-free"));
    assert_eq!(
        to_text(&data[2]),
        r#"{"context_window":128000,"display_name":"Mimo V2.5 Free","id":"mimo-v2.5-free","input_price":0.0,"name":"Mimo V2.5 Free","output_price":0.0,"type":"model"}"#
    );
}

#[test]
fn the_answer_falls_back_to_the_own_list() {
    assert_eq!(models_answer(None).str_at("object"), Some("list"));
    let upstream = parse(r#"{"data":[{"id":"x"}]}"#);
    assert_eq!(models_answer(Some(&upstream)).str_at("first_id"), Some("x"));
}

#[test]
fn details() {
    let f = |s: &str| to_text(&model_detail(&parse(s)));
    assert_eq!(
        f(r#"{"id":"m","name":"M","created":1}"#),
        r#"{"display_name":"M","id":"m","name":"M","type":"model"}"#
    );
    assert_eq!(f(r#"{"id":"m"}"#), r#"{"id":"m","type":"model"}"#);
    assert_eq!(f(r#"{"name":"M","id":2}"#), r#"{"display_name":"M","name":"M","type":"model"}"#);
    assert_eq!(f("[]"), r#"{"type":"model"}"#);
}

#[test]
fn ids_are_split_at_dashes_and_white_space() {
    let spaces = [0x85u32, 0xa0, 0x1680, 0x2028, 0x2029, 0x202f, 0x205f, 0x3000];
    for n in 0u32..=0x10ffff {
        if let Some(c) = char::from_u32(n) {
            let space = (0x9..=0xd).contains(&n)
                || n == 0x20
                || (0x2000..=0x200a).contains(&n)
                || spaces.contains(&n);
            let split = split_words(&format!("a{}b", c)).len() == 2;
            assert_eq!(split, space || c == '-', "{:x}", n);
        }
    }
}

#[test]
fn first_characters_are_replaced() {
    let words = vec!["big".to_string(), "x".to_string()];
    let firsts = vec!["B".to_string(), "SS".to_string()];
    assert_eq!(join_with_initials(&words, &firsts), "Big SS");
    assert_eq!(join_with_initials(&vec![], &vec![]), "");
}

#[test]
fn prices_by_kind() {
    let f = |s: &str| write_price(Some(&parse(s)), "rounded".to_string());
    assert_eq!(f("3"), "rounded");
    assert_eq!(f("-3"), "rounded");
    assert_eq!(f("3.5"), "3.5");
    assert_eq!(f("\"3\""), "0.0");
    assert_eq!(write_price(None, "rounded".to_string()), "0.0");
}

#[test]
fn an_entry_with_given_name_and_prices() {
    let entry = model_entry_json(
        &parse(r#"{"id":"m","created":4}"#),
        "N",
        "1.0".to_string(),
        "2.0".to_string(),
    );
    assert_eq!(
        to_text(&entry),
        r#"{"context_window":128000,"created":4,"display_name":"N","id":"m","input_price":1.0,"name":"N","output_price":2.0,"type":"model"}"#
    );
}

#[test]
fn the_free_models_are_named_after_their_ids() {
    for model in oplire::config::ProxyConfig::free_models() {
        assert_eq!(title(&model.id), model.display_name);
    }
}

#[test]
fn ascii_initials() {
    for n in 0u8..0x80 {
        let c = n as char;
        if c != '-' && !c.is_whitespace() {
            assert_eq!(title(&format!("{}x", c)), format!("{}x", c.to_ascii_uppercase()));
        }
    }
}

#[test]
fn the_free_models_are_what_their_ids_make() {
    let ids: Vec<String> = oplire::config::ProxyConfig::free_models()
        .iter()
        .map(|m| format!("{{\"id\":\"{}\"}}", m.id))
        .collect();
    let bare = parse(&format!("{{\"data\":[{}]}}", ids.join(",")));
    assert_eq!(
        transform_models_to_anthropic(&parse("{}")),
        transform_models_to_anthropic(&bare)
    );
}
