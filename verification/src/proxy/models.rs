//! The models that the bridge offers.

use crate::config;
use crate::config::ProxyConfig;
use crate::json;
use crate::json::{object, Json, JsonView, Number, NumberView};
use crate::text;
use crate::text::{chars_of, join};
use vstd::prelude::*;
use vstd::string::*;

verus! {

/// Whether a character is white space, by the Unicode property of that name.
pub open spec fn white_space(c: char) -> bool {
    let n = c as nat;
    ||| 0x9 <= n <= 0xd
    ||| n == 0x20
    ||| n == 0x85
    ||| n == 0xa0
    ||| n == 0x1680
    ||| 0x2000 <= n <= 0x200a
    ||| n == 0x2028
    ||| n == 0x2029
    ||| n == 0x202f
    ||| n == 0x205f
    ||| n == 0x3000
}

/// `char::is_whitespace`: whether a character has the Unicode property
/// White_Space.
pub assume_specification[ char::is_whitespace ](c: char) -> (r: bool)
    ensures
        r == white_space(c),
;

/// The upper case of an ASCII character.
pub open spec fn ascii_upper_case(c: char) -> char {
    if 'a' as nat <= c as nat <= 'z' as nat {
        (c as nat - 'a' as nat + 'A' as nat) as char
    } else {
        c
    }
}

/// The upper case of a character beyond ASCII, as std gives it: one or more
/// characters.
pub uninterp spec fn wide_upper_case(c: char) -> Seq<char>;

/// The upper case of a character.
pub open spec fn upper_case(c: char) -> Seq<char> {
    if 0x80 > c as nat {
        seq![ascii_upper_case(c)]
    } else {
        wide_upper_case(c)
    }
}

/// `char::to_uppercase`: the upper case of a character. An ASCII letter has
/// the ASCII letter of the other case, any other ASCII character has itself.
#[verifier::external_body]
fn to_upper_case(c: char) -> (r: String)
    ensures
        r@ == (if 0x80 > c as nat {
            seq![ascii_upper_case(c)]
        } else {
            wide_upper_case(c)
        }),
{
    c.to_uppercase().to_string()
}

/// The words of a text: its longest runs of characters that are not white
/// space, in order.
pub open spec fn words(s: Seq<char>) -> Seq<Seq<char>>
    decreases s.len(),
{
    if s.len() == 0 {
        Seq::empty()
    } else {
        let before = words(s.drop_last());
        if white_space(s.last()) {
            before
        } else if s.len() >= 2 && !white_space(s[s.len() - 2]) {
            before.drop_last().push(before.last().push(s.last()))
        } else {
            before.push(seq![s.last()])
        }
    }
}

/// A text with a space in place of each dash.
pub open spec fn undashed(s: Seq<char>) -> Seq<char> {
    Seq::new(
        s.len(),
        |i: int|
            if s[i] == '-' {
                ' '
            } else {
                s[i]
            },
    )
}

/// The upper case of the first character of each word.
pub open spec fn initials(list: Seq<Seq<char>>) -> Seq<Seq<char>> {
    Seq::new(list.len(), |i: int| upper_case(list[i][0]))
}

/// Some words, each with its first character replaced, with single spaces
/// between them.
pub open spec fn with_initials(list: Seq<Seq<char>>, firsts: Seq<Seq<char>>) -> Seq<char> {
    text::joined(Seq::new(list.len(), |i: int| firsts[i] + list[i].skip(1)), " "@)
}

/// The name that is made from a model id: its parts between dashes and white
/// space, each with its first character in upper case.
pub open spec fn titled(id: Seq<char>) -> Seq<char> {
    with_initials(words(undashed(id)), initials(words(undashed(id))))
}

/// No word is empty.
proof fn lemma_words_not_empty(s: Seq<char>, i: int)
    requires
        0 <= i < words(s).len(),
    ensures
        words(s)[i].len() > 0,
    decreases s.len(),
{
    if s.len() > 0 {
        let before = words(s.drop_last());
        if i < before.len() {
            lemma_words_not_empty(s.drop_last(), i);
        }
    }
}

/// Every text that ends in a character of a word has a last word.
proof fn lemma_word_open(s: Seq<char>)
    requires
        s.len() > 0,
        !white_space(s.last()),
    ensures
        words(s).len() > 0,
    decreases s.len(),
{
    if s.len() >= 2 && !white_space(s[s.len() - 2]) {
        lemma_word_open(s.drop_last());
    }
}

/// Splits a model id at dashes and white space.
pub fn split_words(id: &str) -> (r: Vec<String>)
    ensures
        text::views(r@) == words(undashed(id@)),
{
    let chars = chars_of(id);
    let ghost all = undashed(id@);
    let mut out: Vec<String> = Vec::new();
    let mut in_word = false;
    let mut i: usize = 0;
    assert(text::views(out@) =~= words(all.take(0)));
    while i < chars.len()
        invariant
            chars@ == id@,
            all == undashed(id@),
            i <= chars@.len(),
            text::views(out@) == words(all.take(i as int)),
            in_word == (i > 0 && !white_space(all[i - 1])),
        decreases chars@.len() - i,
    {
        let c: char = if chars[i] == '-' {
            ' '
        } else {
            chars[i]
        };
        let ghost now = all.take(i + 1);
        assert(now.drop_last() =~= all.take(i as int));
        assert(now.last() == c);
        assert(c == all[i as int]);
        let ghost was = text::views(out@);
        if c.is_whitespace() {
            in_word = false;
        } else if in_word {
            proof {
                assert(all.take(i as int).last() == all[i - 1]);
                lemma_word_open(all.take(i as int));
                assert(was.len() > 0);
                assert(now[now.len() - 2] == all[i - 1]);
            }
            let last: Option<String> = out.pop();
            if let Some(mut w) = last {
                w.push(c);
                out.push(w);
            }
            assert(text::views(out@) =~= was.drop_last().push(was.last().push(c)));
        } else {
            proof {
                if i > 0 {
                    assert(now[now.len() - 2] == all[i - 1]);
                }
            }
            let mut w = String::new();
            w.push(c);
            assert(w@ =~= seq![c]);
            out.push(w);
            assert(text::views(out@) =~= was.push(seq![c]));
            in_word = true;
        }
        i += 1;
    }
    assert(all.take(all.len() as int) =~= all);
    out
}

/// Puts `firsts` in the place of the first characters of some words, and joins
/// them.
pub fn join_with_initials(list: &Vec<String>, firsts: &Vec<String>) -> (r: String)
    requires
        list@.len() == firsts@.len(),
        forall|i: int| 0 <= i < list@.len() ==> (#[trigger] list@[i])@.len() > 0,
    ensures
        r@ == with_initials(text::views(list@), text::views(firsts@)),
{
    let ghost ws = text::views(list@);
    let ghost fs = text::views(firsts@);
    let ghost all = Seq::new(ws.len(), |i: int| fs[i] + ws[i].skip(1));
    let mut out: Vec<String> = Vec::new();
    let mut i: usize = 0;
    while i < list.len()
        invariant
            i <= list@.len(),
            list@.len() == firsts@.len(),
            forall|k: int| 0 <= k < list@.len() ==> (#[trigger] list@[k])@.len() > 0,
            ws == text::views(list@),
            fs == text::views(firsts@),
            all == Seq::new(ws.len(), |k: int| fs[k] + ws[k].skip(1)),
            text::views(out@) == all.take(i as int),
        decreases list@.len() - i,
    {
        let word = list[i].as_str();
        let rest = word.substring_char(1, word.unicode_len());
        assert(rest@ =~= ws[i as int].skip(1));
        let ghost was = text::views(out@);
        out.push(firsts[i].clone().concat(rest));
        assert(text::views(out@) =~= was.push(all[i as int]));
        i += 1;
        assert(text::views(out@) =~= all.take(i as int));
    }
    assert(text::views(out@) =~= all);
    join(&out, " ")
}

/// Makes a name from a model id.
pub fn title(id: &str) -> (r: String)
    ensures
        r@ == titled(id@),
{
    let list = split_words(id);
    let ghost ws = words(undashed(id@));
    assert forall|i: int| 0 <= i < list@.len() implies (#[trigger] list@[i])@.len() > 0 by {
        assert(ws[i] == list@[i]@);
        lemma_words_not_empty(undashed(id@), i);
    }
    let mut firsts: Vec<String> = Vec::new();
    let mut i: usize = 0;
    while i < list.len()
        invariant
            i <= list@.len(),
            ws == text::views(list@),
            forall|k: int| 0 <= k < list@.len() ==> (#[trigger] list@[k])@.len() > 0,
            text::views(firsts@) == initials(ws).take(i as int),
        decreases list@.len() - i,
    {
        let ghost was = text::views(firsts@);
        assert(ws[i as int] == list@[i as int]@);
        firsts.push(to_upper_case(list[i].as_str().get_char(0)));
        assert(text::views(firsts@) =~= was.push(initials(ws)[i as int]));
        i += 1;
        assert(text::views(firsts@) =~= initials(ws).take(i as int));
    }
    assert(text::views(firsts@) =~= initials(ws));
    join_with_initials(&list, &firsts)
}

/// The text of the double that is nearest to an integer.
pub uninterp spec fn double_text(n: int) -> Seq<char>;

/// `serde_json::Number`: an integer taken as a double (`as_f64`) and written
/// as one (`from_f64` and `Display`).
#[verifier::external_body]
fn integer_as_double(n: i128) -> (r: String)
    requires
        i64::MIN <= n <= u64::MAX,
    ensures
        r@ == double_text(n as int),
{
    serde_json::Number::from_i128(n)
        .and_then(|v| v.as_f64())
        .and_then(serde_json::Number::from_f64)
        .map(|v| v.to_string())
        .unwrap_or_default()
}

/// The integer that a value is, if it is one.
pub open spec fn integer_of(v: Option<JsonView>) -> Option<int> {
    match v {
        Some(JsonView::Num(NumberView::Unsigned(n))) => Some(n as int),
        Some(JsonView::Num(NumberView::Negative(n))) => Some(n as int),
        _ => None,
    }
}

/// The text of a price: `rounded` for an integer, its own for any other
/// number, zero where it is no number.
pub open spec fn price_text(v: Option<JsonView>, rounded: Seq<char>) -> Seq<char> {
    match v {
        Some(JsonView::Num(NumberView::Unsigned(_))) => rounded,
        Some(JsonView::Num(NumberView::Negative(_))) => rounded,
        Some(JsonView::Num(NumberView::Float(s))) => s,
        _ => "0.0"@,
    }
}

/// The price in the member `key` as a double; zero where it is no number.
pub open spec fn price(model: JsonView, key: Seq<char>) -> Seq<char> {
    match integer_of(model.get(key)) {
        Some(n) => double_text(n),
        None => price_text(model.get(key), "0.0"@),
    }
}

/// Writes a price. `rounded` is its double, written out, if it is an integer.
pub fn write_price(v: Option<&Json>, rounded: String) -> (r: String)
    ensures
        r@ == price_text(json::opt_model(v), rounded@),
{
    match v {
        Some(Json::Num(Number::Unsigned(_))) => rounded,
        Some(Json::Num(Number::Negative(_))) => rounded,
        Some(Json::Num(Number::Float(s))) => s.clone(),
        _ => "0.0".to_owned(),
    }
}

fn read_price(model: &Json, key: &str) -> (r: String)
    ensures
        r@ == price(model@, key@),
{
    let v = model.get(key);
    let rounded: String = match v {
        Some(Json::Num(Number::Unsigned(n))) => integer_as_double(*n as i128),
        Some(Json::Num(Number::Negative(n))) => integer_as_double(*n as i128),
        _ => "0.0".to_owned(),
    };
    write_price(v, rounded)
}

/// The name of an upstream model: its own, or one made from its id.
pub open spec fn display_name(model: JsonView) -> Seq<char> {
    match model.str_at("name"@) {
        Some(name) => name,
        None => titled(model.str_or("id"@, ""@)),
    }
}

/// The context window of an upstream model.
pub open spec fn context_window(model: JsonView) -> u64 {
    match model.u64_at("context_window"@) {
        Some(n) => n,
        None => match model.u64_at("max_tokens"@) {
            Some(n) => n,
            None => 128_000,
        },
    }
}

/// The members of a model entry that every entry has.
pub open spec fn model_members_of(
    id: Seq<char>,
    name: Seq<char>,
    context: u64,
    input_price: Seq<char>,
    output_price: Seq<char>,
) -> Seq<(Seq<char>, JsonView)> {
    seq![
        ("id"@, JsonView::Str(id)),
        ("name"@, JsonView::Str(name)),
        ("type"@, JsonView::Str("model"@)),
        ("display_name"@, JsonView::Str(name)),
        ("context_window"@, JsonView::Num(NumberView::Unsigned(context))),
        ("input_price"@, JsonView::Num(NumberView::Float(input_price))),
        ("output_price"@, JsonView::Num(NumberView::Float(output_price))),
    ]
}

/// Members with the member `key` of a model, if it has one.
pub open spec fn with_member(
    entries: Seq<(Seq<char>, JsonView)>,
    model: JsonView,
    key: Seq<char>,
) -> Seq<(Seq<char>, JsonView)> {
    match model.get(key) {
        Some(v) => entries.push((key, v)),
        None => entries,
    }
}

/// The entry for an upstream model with the given name and prices.
pub open spec fn entry_with(
    model: JsonView,
    name: Seq<char>,
    input_price: Seq<char>,
    output_price: Seq<char>,
) -> JsonView {
    let entries = model_members_of(
        model.str_or("id"@, ""@),
        name,
        context_window(model),
        input_price,
        output_price,
    );
    json::object_of(
        with_member(
            with_member(with_member(entries, model, "created"@), model, "owned_by"@),
            model,
            "architecture"@,
        ),
    )
}

/// The entry for an upstream model: nothing for a model without an id.
pub open spec fn model_entry(model: JsonView) -> Option<JsonView> {
    if model.str_or("id"@, ""@).len() == 0 {
        None
    } else {
        Some(
            entry_with(
                model,
                display_name(model),
                price(model, "input_price"@),
                price(model, "output_price"@),
            ),
        )
    }
}

/// The entries for the upstream models, in order.
pub open spec fn model_entries(models: Seq<JsonView>) -> Seq<JsonView>
    decreases models.len(),
{
    if models.len() == 0 {
        Seq::empty()
    } else {
        match model_entry(models.last()) {
            Some(entry) => model_entries(models.drop_last()).push(entry),
            None => model_entries(models.drop_last()),
        }
    }
}

/// The entries for the free models.
pub open spec fn free_entries() -> Seq<JsonView> {
    Seq::new(
        config::free_model_names().len(),
        |i: int|
            json::object_of(
                model_members_of(
                    config::free_model_names()[i].0,
                    config::free_model_names()[i].1,
                    128_000,
                    "0.0"@,
                    "0.0"@,
                ),
            ),
    )
}

/// The id of the first entry of a list.
pub open spec fn first_id(entries: Seq<JsonView>) -> Seq<char> {
    if entries.len() == 0 {
        ""@
    } else {
        entries[0].str_or("id"@, ""@)
    }
}

/// The id of the last entry of a list.
pub open spec fn last_id(entries: Seq<JsonView>) -> Seq<char> {
    if entries.len() == 0 {
        ""@
    } else {
        entries.last().str_or("id"@, ""@)
    }
}

/// The entries for an upstream models list: those of its models, and of the
/// free models where it has no list.
pub open spec fn entries_for(upstream: JsonView) -> Seq<JsonView> {
    match upstream.arr_at("data"@) {
        Some(models) => model_entries(models),
        None => free_entries(),
    }
}

/// The models list with the given entries.
pub open spec fn models_page(entries: Seq<JsonView>) -> JsonView {
    json::object_of(
        seq![
            ("data"@, JsonView::Arr(entries)),
            ("has_more"@, JsonView::Bool(false)),
            ("first_id"@, JsonView::Str(first_id(entries))),
            ("last_id"@, JsonView::Str(last_id(entries))),
        ],
    )
}

fn members_json(id: &str, name: &str, context: u64, input_price: String, output_price: String) -> (r:
    Vec<(String, Json)>)
    ensures
        json::model_members(r@) == model_members_of(
            id@,
            name@,
            context,
            input_price@,
            output_price@,
        ),
{
    let ghost shape = model_members_of(id@, name@, context, input_price@, output_price@);
    let entries: Vec<(String, Json)> = vec![
        ("id".to_owned(), Json::Str(id.to_owned())),
        ("name".to_owned(), Json::Str(name.to_owned())),
        ("type".to_owned(), Json::Str("model".to_owned())),
        ("display_name".to_owned(), Json::Str(name.to_owned())),
        ("context_window".to_owned(), Json::Num(Number::Unsigned(context))),
        ("input_price".to_owned(), Json::Num(Number::Float(input_price))),
        ("output_price".to_owned(), Json::Num(Number::Float(output_price))),
    ];
    assert(json::model_members(entries@) =~= shape);
    entries
}

fn push_member(entries: &mut Vec<(String, Json)>, model: &Json, key: &str)
    ensures
        json::model_members(final(entries)@) == with_member(
            json::model_members(old(entries)@),
            model@,
            key@,
        ),
{
    let ghost was = json::model_members(entries@);
    if let Some(v) = model.get(key) {
        let copy = v.clone();
        entries.push((key.to_owned(), copy));
        assert(json::model_members(entries@) =~= was.push((key@, v@)));
    }
}

/// Builds the entry for an upstream model with the given name and prices.
pub fn model_entry_json(model: &Json, name: &str, input_price: String, output_price: String) -> (r:
    Json)
    ensures
        r@ == entry_with(model@, name@, input_price@, output_price@),
{
    let context: u64 = match model.u64_at("context_window") {
        Some(n) => n,
        None => match model.u64_at("max_tokens") {
            Some(n) => n,
            None => 128_000,
        },
    };
    let mut entries = members_json(
        model.str_or("id", ""),
        name,
        context,
        input_price,
        output_price,
    );
    push_member(&mut entries, model, "created");
    push_member(&mut entries, model, "owned_by");
    push_member(&mut entries, model, "architecture");
    object(entries)
}

fn map_model(model: &Json) -> (r: Option<Json>)
    ensures
        json::opt_view(r) == model_entry(model@),
{
    let id = model.str_or("id", "");
    if id.is_empty() {
        return None;
    }
    let name: String = match model.str_at("name") {
        Some(name) => name.to_owned(),
        None => title(id),
    };
    Some(
        model_entry_json(
            model,
            name.as_str(),
            read_price(model, "input_price"),
            read_price(model, "output_price"),
        ),
    )
}

fn map_models(models: &Vec<Json>) -> (r: Vec<Json>)
    ensures
        json::model_items(r@) == model_entries(json::model_items(models@)),
{
    let ghost all = json::model_items(models@);
    let mut out: Vec<Json> = Vec::new();
    let mut i: usize = 0;
    assert(json::model_items(out@) =~= model_entries(all.take(0)));
    while i < models.len()
        invariant
            i <= models@.len(),
            all == json::model_items(models@),
            json::model_items(out@) == model_entries(all.take(i as int)),
        decreases models@.len() - i,
    {
        assert(all.take(i + 1).drop_last() =~= all.take(i as int));
        assert(all.take(i + 1).last() == models@[i as int]@);
        if let Some(entry) = map_model(&models[i]) {
            let ghost was = json::model_items(out@);
            let ghost view = entry@;
            out.push(entry);
            assert(json::model_items(out@) =~= was.push(view));
        }
        i += 1;
    }
    assert(all.take(all.len() as int) =~= all);
    out
}

fn map_free_models() -> (r: Vec<Json>)
    ensures
        json::model_items(r@) == free_entries(),
{
    let free = ProxyConfig::free_models();
    let mut out: Vec<Json> = Vec::new();
    let mut i: usize = 0;
    while i < free.len()
        invariant
            i <= free@.len(),
            config::model_names(free@) == config::free_model_names(),
            out@.len() == i,
            forall|k: int| 0 <= k < i ==> json::model(#[trigger] out@[k]) == free_entries()[k],
        decreases free@.len() - i,
    {
        assert(config::model_names(free@)[i as int] == free@[i as int]@);
        let entries = members_json(
            free[i].id.as_str(),
            free[i].display_name.as_str(),
            128_000,
            "0.0".to_owned(),
            "0.0".to_owned(),
        );
        out.push(object(entries));
        i += 1;
    }
    assert(json::model_items(out@) =~= free_entries());
    out
}

fn id_of(entry: Option<&Json>) -> (r: String)
    ensures
        r@ == (match entry {
            Some(e) => e@.str_or("id"@, ""@),
            None => ""@,
        }),
{
    match entry {
        Some(e) => e.str_or("id", "").to_owned(),
        None => "".to_owned(),
    }
}

/// Maps an upstream models list to the Anthropic form.
pub fn transform_models_to_anthropic(upstream: &Json) -> (r: Json)
    ensures
        r@ == models_page(entries_for(upstream@)),
{
    broadcast use {json::lemma_model_arr, json::lemma_model_obj};

    let models: Vec<Json> = match upstream.arr_at("data") {
        Some(list) => map_models(list),
        None => map_free_models(),
    };
    let ghost view = json::model_items(models@);
    let first = id_of(models.first());
    let last = id_of(models.last());
    proof {
        if models@.len() > 0 {
            assert(view[0] == models@[0]@);
            assert(view.last() == models@.last()@);
        }
    }
    let entries: Vec<(String, Json)> = vec![
        ("data".to_owned(), Json::Arr(models)),
        ("has_more".to_owned(), Json::Bool(false)),
        ("first_id".to_owned(), Json::Str(first)),
        ("last_id".to_owned(), Json::Str(last)),
    ];
    assert(json::model_members(entries@) =~= seq![
        ("data"@, JsonView::Arr(view)),
        ("has_more"@, JsonView::Bool(false)),
        ("first_id"@, JsonView::Str(first_id(view))),
        ("last_id"@, JsonView::Str(last_id(view))),
    ]);
    object(entries)
}

/// The answer to a request for the models: made from the upstream list where
/// it could be read, and the list of the free models otherwise.
pub fn models_answer(upstream: Option<&Json>) -> (r: Json)
    ensures
        r@ == match json::opt_model(upstream) {
            Some(list) => models_page(entries_for(list)),
            None => config::listed_models(),
        },
{
    match upstream {
        Some(list) => transform_models_to_anthropic(list),
        None => ProxyConfig::models_response(),
    }
}

/// The members of the answer to a request for one model.
pub open spec fn detail_members(model: JsonView) -> Seq<(Seq<char>, JsonView)> {
    let id = match model.str_at("id"@) {
        Some(id) => seq![("id"@, JsonView::Str(id))],
        None => Seq::empty(),
    };
    let name = match model.str_at("name"@) {
        Some(name) => id.push(("name"@, JsonView::Str(name))).push(
            ("display_name"@, JsonView::Str(name)),
        ),
        None => id,
    };
    name.push(("type"@, JsonView::Str("model"@)))
}

/// The answer to a request for one model that the upstream server has.
pub fn model_detail(model: &Json) -> (r: Json)
    ensures
        r@ == json::object_of(detail_members(model@)),
{
    let mut entries: Vec<(String, Json)> = Vec::new();
    let ghost mut shape: Seq<(Seq<char>, JsonView)> = Seq::empty();
    if let Some(id) = model.str_at("id") {
        entries.push(("id".to_owned(), Json::Str(id.to_owned())));
        proof {
            shape = seq![("id"@, JsonView::Str(id@))];
        }
    }
    assert(json::model_members(entries@) =~= shape);
    if let Some(name) = model.str_at("name") {
        entries.push(("name".to_owned(), Json::Str(name.to_owned())));
        entries.push(("display_name".to_owned(), Json::Str(name.to_owned())));
        proof {
            shape = shape.push(("name"@, JsonView::Str(name@))).push(
                ("display_name"@, JsonView::Str(name@)),
            );
        }
    }
    assert(json::model_members(entries@) =~= shape);
    entries.push(("type".to_owned(), Json::Str("model".to_owned())));
    assert(json::model_members(entries@) =~= detail_members(model@));
    object(entries)
}

/// Whether an entry names its model.
pub open spec fn has_name(entry: JsonView) -> bool {
    entry.str_at("id"@) matches Some(id) && id.len() > 0
}

proof fn lemma_entry_id(
    id: Seq<char>,
    name: Seq<char>,
    context: u64,
    input_price: Seq<char>,
    output_price: Seq<char>,
    model: JsonView,
)
    ensures
        ({
            let base = model_members_of(id, name, context, input_price, output_price);
            let full = with_member(
                with_member(with_member(base, model, "created"@), model, "owned_by"@),
                model,
                "architecture"@,
            );
            &&& json::object_of(base).str_at("id"@) == Some(id)
            &&& json::object_of(full).str_at("id"@) == Some(id)
        }),
{
    reveal_strlit("id");
    reveal_strlit("name");
    reveal_strlit("type");
    reveal_strlit("display_name");
    reveal_strlit("context_window");
    reveal_strlit("input_price");
    reveal_strlit("output_price");
    reveal_strlit("created");
    reveal_strlit("owned_by");
    reveal_strlit("architecture");
    assert("id"@.len() == 2);
    assert("name"@.len() == 4);
    assert("type"@.len() == 4);
    assert("display_name"@.len() == 12);
    assert("context_window"@.len() == 14);
    assert("input_price"@.len() == 11);
    assert("output_price"@.len() == 12);
    assert("created"@.len() == 7);
    assert("owned_by"@.len() == 8);
    assert("architecture"@.len() == 12);
    let base = model_members_of(id, name, context, input_price, output_price);
    let full = with_member(
        with_member(with_member(base, model, "created"@), model, "owned_by"@),
        model,
        "architecture"@,
    );
    json::law_object_has_last_value(base, 0);
    assert(full[0] == base[0]);
    json::law_object_has_last_value(full, 0);
}

proof fn lemma_entries_have_names(models: Seq<JsonView>, i: int)
    requires
        0 <= i < model_entries(models).len(),
    ensures
        has_name(model_entries(models)[i]),
    decreases models.len(),
{
    if models.len() > 0 {
        let before = model_entries(models.drop_last());
        if i < before.len() {
            lemma_entries_have_names(models.drop_last(), i);
        } else {
            let m = models.last();
            lemma_entry_id(
                m.str_or("id"@, ""@),
                display_name(m),
                context_window(m),
                price(m, "input_price"@),
                price(m, "output_price"@),
                m,
            );
        }
    }
}

/// Every entry of a models list names its model, and the list tells the ids
/// of its first and its last entry.
pub proof fn law_listed_models_have_names(upstream: JsonView, i: int)
    requires
        0 <= i < entries_for(upstream).len(),
    ensures
        has_name(entries_for(upstream)[i]),
        entries_for(upstream)[0].str_at("id"@) == Some(first_id(entries_for(upstream))),
        entries_for(upstream).last().str_at("id"@) == Some(last_id(entries_for(upstream))),
{
    let entries = entries_for(upstream);
    let last = entries.len() - 1;
    lemma_entry_has_name(upstream, i);
    lemma_entry_has_name(upstream, 0);
    lemma_entry_has_name(upstream, last);
}

proof fn lemma_entry_has_name(upstream: JsonView, i: int)
    requires
        0 <= i < entries_for(upstream).len(),
    ensures
        has_name(entries_for(upstream)[i]),
{
    match upstream.arr_at("data"@) {
        Some(models) => {
            lemma_entries_have_names(models, i);
        },
        None => {
            let model = config::free_model_names()[i];
            lemma_entry_id(model.0, model.1, 128_000, "0.0"@, "0.0"@, upstream);
            reveal_strlit("big-pickle");
            reveal_strlit("ling-3.0-flash-fin-free");
            reveal_strlit("mimo-v2.5-free");
            reveal_strlit("muse-spark-1.2-contributor-free");
            reveal_strlit("muse-spark-1.3-contributor-free");
            reveal_strlit("nemotron-3-ultra-free");
            reveal_strlit("nemotron-3.5-lightning-free");
        },
    }
}

/// Some words with their initials in upper case.
spec fn titled_words(list: Seq<Seq<char>>) -> Seq<char> {
    with_initials(list, initials(list))
}

/// The pieces that titled words are joined from.
spec fn pieces(list: Seq<Seq<char>>) -> Seq<Seq<char>> {
    Seq::new(list.len(), |i: int| initials(list)[i] + list[i].skip(1))
}

proof fn lemma_titled_words_push(list: Seq<Seq<char>>, c: char)
    requires
        0x80 > c as nat,
    ensures
        titled_words(list.push(seq![c])) == (if list.len() == 0 {
            seq![ascii_upper_case(c)]
        } else {
            titled_words(list) + " "@ + seq![ascii_upper_case(c)]
        }),
{
    let now = list.push(seq![c]);
    let all = pieces(now);
    assert(all.last() =~= seq![ascii_upper_case(c)]);
    assert(all.drop_last() =~= pieces(list));
    assert(titled_words(now) == text::joined(all, " "@));
    assert(titled_words(list) == text::joined(pieces(list), " "@));
}

proof fn lemma_titled_words_grow(list: Seq<Seq<char>>, c: char)
    requires
        list.len() > 0,
        list.last().len() > 0,
    ensures
        titled_words(list.drop_last().push(list.last().push(c))) == titled_words(list).push(c),
{
    let now = list.drop_last().push(list.last().push(c));
    let all = pieces(now);
    let old_all = pieces(list);
    let n = list.len() - 1;
    assert(list.last().push(c).skip(1) =~= list.last().skip(1).push(c));
    assert(list.last().push(c)[0] == list.last()[0]);
    assert(all.last() =~= old_all.last().push(c));
    assert(all.drop_last() =~= old_all.drop_last()) by {
        assert forall|i: int| 0 <= i < n implies all[i] == old_all[i] by {
            assert(now[i] == list[i]);
        }
    }
    assert(titled_words(now) == text::joined(all, " "@));
    assert(titled_words(list) == text::joined(old_all, " "@));
    assert(titled_words(now) =~= titled_words(list).push(c));
}

/// Whether the first `n` characters of a name are made from those of an id:
/// the id is made of ASCII words with single dashes between them, and the name
/// has spaces for the dashes and capital initials.
spec fn named_after(id: Seq<char>, name: Seq<char>, n: nat) -> bool
    decreases n,
{
    n == 0 || {
        let i = n - 1;
        let c = id[i];
        let first = i == 0 || id[i - 1] == '-';
        &&& named_after(id, name, i as nat)
        &&& 0x80 > c as nat
        &&& !white_space(c)
        &&& if c == '-' {
            !first && name[i] == ' '
        } else {
            name[i] == (if first {
                ascii_upper_case(c)
            } else {
                c
            })
        }
    }
}

proof fn lemma_named_after(id: Seq<char>, name: Seq<char>, n: nat)
    requires
        n <= id.len(),
        n <= name.len(),
        named_after(id, name, n),
    ensures
        ({
            let list = words(undashed(id).take(n as int));
            &&& n > 0 && id[n - 1] != '-' ==> titled_words(list) == name.take(n as int)
            &&& n > 0 && id[n - 1] == '-' ==> n > 1 && titled_words(list) == name.take(n - 1)
            &&& n > 0 ==> list.len() > 0
        }),
    decreases n,
{
    if n > 0 {
        let m = (n - 1) as nat;
        let s = undashed(id);
        let c = id[n - 1];
        lemma_named_after(id, name, m);
        let now = s.take(n as int);
        let before = s.take(m as int);
        let list = words(before);
        assert(now.drop_last() =~= before);
        assert(now.last() == s[n - 1]);
        assert(white_space(' '));
        if m > 0 {
            assert(now[now.len() - 2] == s[m - 1]);
            assert(white_space(s[m - 1]) == (id[m - 1] == '-')) by {
                assert(named_after(id, name, m));
            }
        }
        if c == '-' {
            assert(words(now) == list);
        } else if m > 0 && id[m - 1] != '-' {
            lemma_words_not_empty(before, list.len() - 1);
            lemma_titled_words_grow(list, c);
            assert(name.take(n as int) =~= name.take(m as int).push(name[n - 1]));
        } else {
            lemma_titled_words_push(list, c);
            reveal_strlit(" ");
            if m == 0 {
                assert(list =~= Seq::empty());
                assert(name.take(1) =~= seq![name[0]]);
            } else {
                assert(named_after(id, name, m));
                assert(name[m - 1] == ' ');
                assert(name.take(n as int) =~= name.take(m - 1) + " "@ + seq![name[n - 1]]);
            }
        }
    }
}

/// A name that is made from an id character by character is its title.
proof fn lemma_title(id: Seq<char>, name: Seq<char>)
    requires
        id.len() > 0,
        id.len() == name.len(),
        id.last() != '-',
        named_after(id, name, id.len()),
    ensures
        titled(id) == name,
{
    lemma_named_after(id, name, id.len());
    assert(undashed(id).take(id.len() as int) =~= undashed(id));
    assert(name.take(id.len() as int) =~= name);
}

proof fn lemma_title_big_pickle()
    ensures
        titled("big-pickle"@) == "Big Pickle"@,
{
    reveal_strlit("big-pickle");
    reveal_strlit("Big Pickle");
    reveal_with_fuel(named_after, 11);
    lemma_title("big-pickle"@, "Big Pickle"@);
}

proof fn lemma_title_ling_3_0_flash_fin_free()
    ensures
        titled("ling-3.0-flash-fin-free"@) == "Ling 3.0 Flash Fin Free"@,
{
    reveal_strlit("ling-3.0-flash-fin-free");
    reveal_strlit("Ling 3.0 Flash Fin Free");
    reveal_with_fuel(named_after, 24);
    lemma_title("ling-3.0-flash-fin-free"@, "Ling 3.0 Flash Fin Free"@);
}

proof fn lemma_title_mimo_v2_5_free()
    ensures
        titled("mimo-v2.5-free"@) == "Mimo V2.5 Free"@,
{
    reveal_strlit("mimo-v2.5-free");
    reveal_strlit("Mimo V2.5 Free");
    reveal_with_fuel(named_after, 15);
    lemma_title("mimo-v2.5-free"@, "Mimo V2.5 Free"@);
}

proof fn lemma_title_muse_spark_1_2_contributor_free()
    ensures
        titled("muse-spark-1.2-contributor-free"@) == "Muse Spark 1.2 Contributor Free"@,
{
    reveal_strlit("muse-spark-1.2-contributor-free");
    reveal_strlit("Muse Spark 1.2 Contributor Free");
    reveal_with_fuel(named_after, 32);
    lemma_title("muse-spark-1.2-contributor-free"@, "Muse Spark 1.2 Contributor Free"@);
}

proof fn lemma_title_muse_spark_1_3_contributor_free()
    ensures
        titled("muse-spark-1.3-contributor-free"@) == "Muse Spark 1.3 Contributor Free"@,
{
    reveal_strlit("muse-spark-1.3-contributor-free");
    reveal_strlit("Muse Spark 1.3 Contributor Free");
    reveal_with_fuel(named_after, 32);
    lemma_title("muse-spark-1.3-contributor-free"@, "Muse Spark 1.3 Contributor Free"@);
}

proof fn lemma_title_nemotron_3_ultra_free()
    ensures
        titled("nemotron-3-ultra-free"@) == "Nemotron 3 Ultra Free"@,
{
    reveal_strlit("nemotron-3-ultra-free");
    reveal_strlit("Nemotron 3 Ultra Free");
    reveal_with_fuel(named_after, 22);
    lemma_title("nemotron-3-ultra-free"@, "Nemotron 3 Ultra Free"@);
}

proof fn lemma_title_nemotron_3_5_lightning_free()
    ensures
        titled("nemotron-3.5-lightning-free"@) == "Nemotron 3.5 Lightning Free"@,
{
    reveal_strlit("nemotron-3.5-lightning-free");
    reveal_strlit("Nemotron 3.5 Lightning Free");
    reveal_with_fuel(named_after, 28);
    lemma_title("nemotron-3.5-lightning-free"@, "Nemotron 3.5 Lightning Free"@);
}

/// Each free model has the name that is made from its id.
pub proof fn law_free_models_are_named_after_their_ids(i: int)
    requires
        0 <= i < config::free_model_names().len(),
    ensures
        config::free_model_names()[i].1 == titled(config::free_model_names()[i].0),
        config::free_model_names()[i].0.len() > 0,
{
    lemma_title_big_pickle();
    lemma_title_ling_3_0_flash_fin_free();
    lemma_title_mimo_v2_5_free();
    lemma_title_muse_spark_1_2_contributor_free();
    lemma_title_muse_spark_1_3_contributor_free();
    lemma_title_nemotron_3_ultra_free();
    lemma_title_nemotron_3_5_lightning_free();
    reveal_strlit("big-pickle");
    reveal_strlit("ling-3.0-flash-fin-free");
    reveal_strlit("mimo-v2.5-free");
    reveal_strlit("muse-spark-1.2-contributor-free");
    reveal_strlit("muse-spark-1.3-contributor-free");
    reveal_strlit("nemotron-3-ultra-free");
    reveal_strlit("nemotron-3.5-lightning-free");
}

/// A model of which only the id is known.
pub open spec fn bare_model(id: Seq<char>) -> JsonView {
    json::object_of(seq![("id"@, JsonView::Str(id))])
}

/// A models list of which only the ids of the free models are known.
pub open spec fn bare_list() -> JsonView {
    json::object_of(
        seq![
            (
                "data"@,
                JsonView::Arr(
                    Seq::new(
                        config::free_model_names().len(),
                        |i: int| bare_model(config::free_model_names()[i].0),
                    ),
                ),
            ),
        ],
    )
}

proof fn lemma_bare_model(id: Seq<char>)
    requires
        id.len() > 0,
    ensures
        model_entry(bare_model(id)) == Some(
            json::object_of(model_members_of(id, titled(id), 128_000, "0.0"@, "0.0"@)),
        ),
{
    let m = bare_model(id);
    let entries = seq![("id"@, JsonView::Str(id))];
    reveal_strlit("id");
    reveal_strlit("name");
    reveal_strlit("context_window");
    reveal_strlit("max_tokens");
    reveal_strlit("input_price");
    reveal_strlit("output_price");
    reveal_strlit("created");
    reveal_strlit("owned_by");
    reveal_strlit("architecture");
    assert("id"@.len() == 2);
    assert("name"@.len() == 4);
    assert("context_window"@.len() == 14);
    assert("max_tokens"@.len() == 10);
    assert("input_price"@.len() == 11);
    assert("output_price"@.len() == 12);
    assert("created"@.len() == 7);
    assert("owned_by"@.len() == 8);
    assert("architecture"@.len() == 12);
    json::law_object_has_last_value(entries, 0);
    json::law_object_has_no_other_member(entries, "name"@);
    json::law_object_has_no_other_member(entries, "context_window"@);
    json::law_object_has_no_other_member(entries, "max_tokens"@);
    json::law_object_has_no_other_member(entries, "input_price"@);
    json::law_object_has_no_other_member(entries, "output_price"@);
    json::law_object_has_no_other_member(entries, "created"@);
    json::law_object_has_no_other_member(entries, "owned_by"@);
    json::law_object_has_no_other_member(entries, "architecture"@);
    assert(m.str_or("id"@, ""@) == id);
}

proof fn lemma_entries_one_by_one(models: Seq<JsonView>, entries: Seq<JsonView>)
    requires
        models.len() == entries.len(),
        forall|i: int|
            0 <= i < models.len() ==> model_entry(#[trigger] models[i]) == Some(entries[i]),
    ensures
        model_entries(models) == entries,
    decreases models.len(),
{
    if models.len() > 0 {
        let start = models.drop_last();
        assert forall|i: int| 0 <= i < start.len() implies model_entry(#[trigger] start[i]) == Some(
            entries.drop_last()[i],
        ) by {
            assert(start[i] == models[i]);
        }
        lemma_entries_one_by_one(start, entries.drop_last());
        assert(model_entry(models[models.len() - 1]) == Some(entries.last()));
        assert(entries.drop_last().push(entries.last()) =~= entries);
    } else {
        assert(entries =~= Seq::empty());
    }
}

/// Without an upstream list, the models list is the one that the bare ids of
/// the free models make.
pub proof fn law_free_models_are_what_their_ids_make(upstream: JsonView)
    requires
        upstream.arr_at("data"@) is None,
    ensures
        entries_for(upstream) == entries_for(bare_list()),
        models_page(entries_for(upstream)) == models_page(entries_for(bare_list())),
{
    let names = config::free_model_names();
    let bare = Seq::new(names.len(), |i: int| bare_model(names[i].0));
    json::law_object_has_last_value(seq![("data"@, JsonView::Arr(bare))], 0);
    assert(bare_list().arr_at("data"@) == Some(bare));
    assert forall|i: int| 0 <= i < bare.len() implies model_entry(#[trigger] bare[i]) == Some(
        free_entries()[i],
    ) by {
        law_free_models_are_named_after_their_ids(i);
        lemma_bare_model(names[i].0);
    }
    lemma_entries_one_by_one(bare, free_entries());
}

} // verus!
