//! Native opencode session messages.
//!
//! The server runs tools itself, in its agent loop. The native prompt API
//! takes only text and file parts from this bridge: there is no part for the
//! result of a tool, and no parameter for tool schemas. Therefore:
//! - `tool_result` blocks of a request are dropped and counted.
//! - The `tools` array of a request is sent nowhere; its entries without
//!   `input_schema` are counted.
//! - Tool parts of a reply come back as `tool_use` blocks, each followed by
//!   its `tool_result` once the tool has run.
//! - Non-empty reasoning parts of a reply become `thinking` blocks.

use crate::json;
use crate::json::{object, Json, JsonView};
use crate::text;
use crate::text::{join, numeral_text, same};
use crate::transform::native_stream;
use crate::transform::native_stream::{tool_input_json, usage_json};
use crate::transform::turn;
use vstd::prelude::*;
use vstd::string::*;

verus! {

/// Native request derived from an Anthropic `/v1/messages` body.
pub struct NativeRequest {
    /// Parts for `POST /session/{id}/message` (text and file parts only).
    pub parts: Vec<Json>,
    /// System prompt for the native `system` field (optional).
    pub system: Option<String>,
    /// Native model ID.
    pub model_id: String,
    /// Count of dropped `tool_result` input blocks.
    pub dropped_tool_results: usize,
    /// Count of schema-less entries of the `tools` array.
    pub dropped_tools: usize,
}

/// A text part, which is also a text block.
pub open spec fn text_part(text: Seq<char>) -> JsonView {
    json::object_of(seq![("type"@, JsonView::Str("text"@)), ("text"@, JsonView::Str(text))])
}

/// A file part.
pub open spec fn file_part(mime: Seq<char>, url: Seq<char>) -> JsonView {
    json::object_of(
        seq![
            ("type"@, JsonView::Str("file"@)),
            ("mime"@, JsonView::Str(mime)),
            ("url"@, JsonView::Str(url)),
        ],
    )
}

/// The file part for an image block: a base64 source becomes a data URL with
/// its media type (`image/png` where it names none), a URL source passes its
/// URL through as `image/png`. An image without data or URL has none.
pub open spec fn image_part(block: JsonView) -> Option<JsonView> {
    match block.get("source"@) {
        Some(source) => if source.str_at("type"@) == Some("base64"@) {
            let media_type = source.str_or("media_type"@, "image/png"@);
            match source.str_at("data"@) {
                Some(data) => if data.len() == 0 {
                    None
                } else {
                    Some(file_part(media_type, "data:"@ + media_type + ";base64,"@ + data))
                },
                None => None,
            }
        } else if source.str_at("type"@) == Some("url"@) {
            match source.str_at("url"@) {
                Some(url) => if url.len() == 0 {
                    None
                } else {
                    Some(file_part("image/png"@, url))
                },
                None => None,
            }
        } else {
            None
        },
        None => None,
    }
}

/// The native part for a content block of a request, if it has one.
pub open spec fn block_part(block: JsonView) -> Option<JsonView> {
    if block.str_at("type"@) == Some("text"@) {
        match block.str_at("text"@) {
            Some(text) => if text.len() == 0 {
                None
            } else {
                Some(text_part(text))
            },
            None => None,
        }
    } else if block.str_at("type"@) == Some("image"@) {
        image_part(block)
    } else {
        None
    }
}

/// The native parts for the content blocks of a message, in order.
pub open spec fn block_parts(blocks: Seq<JsonView>) -> Seq<JsonView>
    decreases blocks.len(),
{
    if blocks.len() == 0 {
        Seq::empty()
    } else {
        match block_part(blocks.last()) {
            Some(part) => block_parts(blocks.drop_last()).push(part),
            None => block_parts(blocks.drop_last()),
        }
    }
}

/// The native parts for one message: none for an assistant message.
pub open spec fn message_input(message: JsonView) -> Seq<JsonView> {
    if message.str_at("role"@) == Some("assistant"@) {
        Seq::empty()
    } else {
        match message.get("content"@) {
            Some(JsonView::Str(s)) => if s.len() == 0 {
                Seq::empty()
            } else {
                seq![text_part(s)]
            },
            Some(JsonView::Arr(blocks)) => block_parts(blocks),
            _ => Seq::empty(),
        }
    }
}

/// The native parts for the messages of a request, in order.
pub open spec fn input_parts(messages: Seq<JsonView>) -> Seq<JsonView>
    decreases messages.len(),
{
    if messages.len() == 0 {
        Seq::empty()
    } else {
        input_parts(messages.drop_last()) + message_input(messages.last())
    }
}

/// How many of some blocks are tool results.
pub open spec fn tool_result_count(blocks: Seq<JsonView>) -> nat
    decreases blocks.len(),
{
    if blocks.len() == 0 {
        0
    } else {
        tool_result_count(blocks.drop_last()) + if blocks.last().str_at("type"@) == Some(
            "tool_result"@,
        ) {
            1nat
        } else {
            0nat
        }
    }
}

/// How many tool results the messages of a request hold.
pub open spec fn dropped_result_count(messages: Seq<JsonView>) -> nat
    decreases messages.len(),
{
    if messages.len() == 0 {
        0
    } else {
        dropped_result_count(messages.drop_last()) + match messages.last().arr_at("content"@) {
            Some(blocks) => tool_result_count(blocks),
            None => 0,
        }
    }
}

/// How many of some tools come without a schema.
pub open spec fn schemaless_count(tools: Seq<JsonView>) -> nat
    decreases tools.len(),
{
    if tools.len() == 0 {
        0
    } else {
        schemaless_count(tools.drop_last()) + if tools.last().get("input_schema"@) is None {
            1nat
        } else {
            0nat
        }
    }
}

/// The texts of the blocks that have one, in order.
pub open spec fn block_texts(blocks: Seq<JsonView>) -> Seq<Seq<char>>
    decreases blocks.len(),
{
    if blocks.len() == 0 {
        Seq::empty()
    } else {
        match blocks.last().str_at("text"@) {
            Some(text) => block_texts(blocks.drop_last()).push(text),
            None => block_texts(blocks.drop_last()),
        }
    }
}

/// The system prompt of a request: a non-empty string, or the texts of an
/// array of blocks, one per line.
pub open spec fn system_prompt(body: JsonView) -> Option<Seq<char>> {
    match body.get("system"@) {
        Some(JsonView::Str(s)) => if s.len() == 0 {
            None
        } else {
            Some(s)
        },
        Some(JsonView::Arr(blocks)) => {
            let all = text::joined(block_texts(blocks), "\n"@);
            if all.len() == 0 {
                None
            } else {
                Some(all)
            }
        },
        _ => None,
    }
}

/// The items of the member `key`, none where it is not an array.
pub open spec fn list_at(body: JsonView, key: Seq<char>) -> Seq<JsonView> {
    match body.arr_at(key) {
        Some(items) => items,
        None => Seq::empty(),
    }
}

/// Builds a text part.
pub fn text_part_json(content: &str) -> (r: Json)
    ensures
        r@ == text_part(content@),
{
    let entries: Vec<(String, Json)> = vec![
        ("type".to_owned(), Json::Str("text".to_owned())),
        ("text".to_owned(), Json::Str(content.to_owned())),
    ];
    assert(json::model_members(entries@) =~= seq![
        ("type"@, JsonView::Str("text"@)),
        ("text"@, JsonView::Str(content@)),
    ]);
    object(entries)
}

fn file_part_json(mime: &str, url: &str) -> (r: Json)
    ensures
        r@ == file_part(mime@, url@),
{
    let entries: Vec<(String, Json)> = vec![
        ("type".to_owned(), Json::Str("file".to_owned())),
        ("mime".to_owned(), Json::Str(mime.to_owned())),
        ("url".to_owned(), Json::Str(url.to_owned())),
    ];
    assert(json::model_members(entries@) =~= seq![
        ("type"@, JsonView::Str("file"@)),
        ("mime"@, JsonView::Str(mime@)),
        ("url"@, JsonView::Str(url@)),
    ]);
    object(entries)
}

/// Maps an image block to a file part.
pub fn anthropic_image_to_file_part(block: &Json) -> (r: Option<Json>)
    ensures
        json::opt_view(r) == image_part(block@),
{
    let source = match block.get("source") {
        Some(source) => source,
        None => {
            return None;
        },
    };
    let kind = match source.str_at("type") {
        Some(kind) => kind,
        None => {
            return None;
        },
    };
    if same(kind, "base64") {
        let media_type = source.str_or("media_type", "image/png");
        match source.str_at("data") {
            Some(data) => {
                if data.is_empty() {
                    return None;
                }
                let mut url = "data:".to_owned();
                url.append(media_type);
                url.append(";base64,");
                url.append(data);
                Some(file_part_json(media_type, url.as_str()))
            },
            None => None,
        }
    } else if same(kind, "url") {
        match source.str_at("url") {
            Some(url) => {
                if url.is_empty() {
                    return None;
                }
                Some(file_part_json("image/png", url))
            },
            None => None,
        }
    } else {
        None
    }
}

fn is_type(block: &Json, kind: &str) -> (r: bool)
    ensures
        r == (block@.str_at("type"@) == Some(kind@)),
{
    match block.str_at("type") {
        Some(s) => same(s, kind),
        None => false,
    }
}

fn map_block(block: &Json) -> (r: Option<Json>)
    ensures
        json::opt_view(r) == block_part(block@),
{
    if is_type(block, "text") {
        match block.str_at("text") {
            Some(content) => {
                if content.is_empty() {
                    return None;
                }
                Some(text_part_json(content))
            },
            None => None,
        }
    } else if is_type(block, "image") {
        anthropic_image_to_file_part(block)
    } else {
        None
    }
}

fn push_json(list: &mut Vec<Json>, v: Json)
    ensures
        json::model_items(final(list)@) == json::model_items(old(list)@).push(v@),
{
    let ghost was = json::model_items(list@);
    let ghost view = v@;
    list.push(v);
    assert(json::model_items(list@) =~= was.push(view));
}

fn map_blocks(blocks: &Vec<Json>, parts: &mut Vec<Json>)
    ensures
        json::model_items(final(parts)@) == json::model_items(old(parts)@) + block_parts(
            json::model_items(blocks@),
        ),
{
    let ghost all = json::model_items(blocks@);
    let ghost before = json::model_items(parts@);
    let mut i: usize = 0;
    assert(before + block_parts(all.take(0)) =~= before);
    while i < blocks.len()
        invariant
            i <= blocks@.len(),
            all == json::model_items(blocks@),
            json::model_items(parts@) == before + block_parts(all.take(i as int)),
        decreases blocks@.len() - i,
    {
        assert(all.take(i + 1).drop_last() =~= all.take(i as int));
        assert(all.take(i + 1).last() == blocks@[i as int]@);
        if let Some(part) = map_block(&blocks[i]) {
            push_json(parts, part);
        }
        i += 1;
        assert(json::model_items(parts@) =~= before + block_parts(all.take(i as int)));
    }
    assert(all.take(all.len() as int) =~= all);
}

/// Adds the tool results among some blocks to the list of what is dropped.
fn drop_results<'a>(blocks: &'a Vec<Json>, dropped: &mut Vec<&'a Json>)
    ensures
        final(dropped)@.len() == old(dropped)@.len() + tool_result_count(
            json::model_items(blocks@),
        ),
{
    let ghost all = json::model_items(blocks@);
    let ghost before = dropped@.len();
    let mut i: usize = 0;
    while i < blocks.len()
        invariant
            i <= blocks@.len(),
            all == json::model_items(blocks@),
            dropped@.len() == before + tool_result_count(all.take(i as int)),
        decreases blocks@.len() - i,
    {
        assert(all.take(i + 1).drop_last() =~= all.take(i as int));
        assert(all.take(i + 1).last() == blocks@[i as int]@);
        if is_type(&blocks[i], "tool_result") {
            dropped.push(&blocks[i]);
        }
        i += 1;
    }
    assert(all.take(all.len() as int) =~= all);
}

fn map_message(message: &Json, parts: &mut Vec<Json>)
    ensures
        json::model_items(final(parts)@) == json::model_items(old(parts)@) + message_input(
            message@,
        ),
{
    let ghost before = json::model_items(parts@);
    assert(before + Seq::<JsonView>::empty() =~= before);
    if let Some(role) = message.str_at("role") {
        if same(role, "assistant") {
            return;
        }
    }
    if let Some(content) = message.get("content") {
        if let Some(s) = content.as_str() {
            if !s.is_empty() {
                push_json(parts, text_part_json(s));
                assert(json::model_items(parts@) =~= before + seq![text_part(s@)]);
            }
        } else if let Some(blocks) = content.as_array() {
            map_blocks(blocks, parts);
        }
    }
}

fn read_system(body: &Json) -> (r: Option<String>)
    ensures
        text::opt_string(r) == system_prompt(body@),
{
    let system = match body.get("system") {
        Some(system) => system,
        None => {
            return None;
        },
    };
    if let Some(s) = system.as_str() {
        if s.is_empty() {
            return None;
        }
        return Some(s.to_owned());
    }
    if let Some(blocks) = system.as_array() {
        let ghost all = json::model_items(blocks@);
        let mut texts: Vec<String> = Vec::new();
        let mut i: usize = 0;
        assert(text::views(texts@) =~= block_texts(all.take(0)));
        while i < blocks.len()
            invariant
                i <= blocks@.len(),
                all == json::model_items(blocks@),
                text::views(texts@) == block_texts(all.take(i as int)),
            decreases blocks@.len() - i,
        {
            assert(all.take(i + 1).drop_last() =~= all.take(i as int));
            assert(all.take(i + 1).last() == blocks@[i as int]@);
            if let Some(s) = blocks[i].str_at("text") {
                let ghost was = text::views(texts@);
                texts.push(s.to_owned());
                assert(text::views(texts@) =~= was.push(s@));
            }
            i += 1;
        }
        assert(all.take(all.len() as int) =~= all);
        let all_text = join(&texts, "\n");
        if all_text.as_str().is_empty() {
            return None;
        }
        return Some(all_text);
    }
    None
}

fn count_schemaless(tools: &Vec<Json>) -> (r: usize)
    ensures
        r == schemaless_count(json::model_items(tools@)),
{
    let ghost all = json::model_items(tools@);
    let mut n: usize = 0;
    let mut i: usize = 0;
    while i < tools.len()
        invariant
            i <= tools@.len(),
            all == json::model_items(tools@),
            n <= i,
            n == schemaless_count(all.take(i as int)),
        decreases tools@.len() - i,
    {
        assert(all.take(i + 1).drop_last() =~= all.take(i as int));
        assert(all.take(i + 1).last() == tools@[i as int]@);
        if tools[i].get("input_schema").is_none() {
            n += 1;
        }
        i += 1;
    }
    assert(all.take(all.len() as int) =~= all);
    n
}

/// Maps an Anthropic `/v1/messages` body to native session message input.
pub fn anthropic_to_native_parts(body: &Json) -> (r: NativeRequest)
    ensures
        json::model_items(r.parts@) == input_parts(list_at(body@, "messages"@)),
        text::opt_string(r.system) == system_prompt(body@),
        r.model_id@ == body@.str_or("model"@, ""@),
        r.dropped_tool_results == dropped_result_count(list_at(body@, "messages"@)),
        r.dropped_tools == schemaless_count(list_at(body@, "tools"@)),
{
    let mut parts: Vec<Json> = Vec::new();
    let mut dropped: Vec<&Json> = Vec::new();
    assert(json::model_items(parts@) =~= Seq::empty());
    if let Some(messages) = body.arr_at("messages") {
        let ghost all = json::model_items(messages@);
        let mut i: usize = 0;
        assert(input_parts(all.take(0)) =~= Seq::empty());
        while i < messages.len()
            invariant
                i <= messages@.len(),
                all == json::model_items(messages@),
                json::model_items(parts@) == input_parts(all.take(i as int)),
                dropped@.len() == dropped_result_count(all.take(i as int)),
            decreases messages@.len() - i,
        {
            assert(all.take(i + 1).drop_last() =~= all.take(i as int));
            assert(all.take(i + 1).last() == messages@[i as int]@);
            map_message(&messages[i], &mut parts);
            if let Some(blocks) = messages[i].arr_at("content") {
                drop_results(blocks, &mut dropped);
            }
            i += 1;
        }
        assert(all.take(all.len() as int) =~= all);
    }
    let dropped_tools: usize = match body.arr_at("tools") {
        Some(tools) => count_schemaless(tools),
        None => 0,
    };
    NativeRequest {
        parts,
        system: read_system(body),
        model_id: body.str_or("model", "").to_owned(),
        dropped_tool_results: dropped.len(),
        dropped_tools,
    }
}

/// A thinking block.
pub open spec fn thinking_block(text: Seq<char>) -> JsonView {
    json::object_of(
        seq![("type"@, JsonView::Str("thinking"@)), ("thinking"@, JsonView::Str(text))],
    )
}

/// A tool_use block.
pub open spec fn tool_use_block(id: Seq<char>, name: Seq<char>, input: JsonView) -> JsonView {
    json::object_of(
        seq![
            ("type"@, JsonView::Str("tool_use"@)),
            ("id"@, JsonView::Str(id)),
            ("name"@, JsonView::Str(name)),
            ("input"@, input),
        ],
    )
}

/// A tool_result block of a tool that has completed.
pub open spec fn tool_result_block(id: Seq<char>, content: Seq<char>) -> JsonView {
    json::object_of(
        seq![
            ("type"@, JsonView::Str("tool_result"@)),
            ("tool_use_id"@, JsonView::Str(id)),
            ("content"@, JsonView::Str(content)),
        ],
    )
}

/// A tool_result block of a tool that has failed.
pub open spec fn tool_error_block(id: Seq<char>, content: Seq<char>) -> JsonView {
    json::object_of(
        seq![
            ("type"@, JsonView::Str("tool_result"@)),
            ("tool_use_id"@, JsonView::Str(id)),
            ("content"@, JsonView::Str(content)),
            ("is_error"@, JsonView::Bool(true)),
        ],
    )
}

/// The member `key` of the state of a part, if it is a string, and `default`
/// otherwise.
pub open spec fn state_str(part: JsonView, key: Seq<char>, default: Seq<char>) -> Seq<char> {
    match part.str_in("state"@, key) {
        Some(s) => s,
        None => default,
    }
}

/// Whether a part is a tool part with a call id and a tool name.
pub open spec fn is_tool_call(part: JsonView) -> bool {
    part.str_at("type"@) == Some("tool"@) && part.str_or("callID"@, ""@).len() > 0 && part.str_or(
        "tool"@,
        ""@,
    ).len() > 0
}

/// The blocks for one part of a reply: one for a non-empty text or reasoning,
/// a tool_use and, once the tool has run, its tool_result for a tool call.
pub open spec fn reply_blocks(part: JsonView) -> Seq<JsonView> {
    if part.str_at("type"@) == Some("text"@) {
        match part.str_at("text"@) {
            Some(text) => if text.len() == 0 {
                Seq::empty()
            } else {
                seq![text_part(text)]
            },
            None => Seq::empty(),
        }
    } else if part.str_at("type"@) == Some("reasoning"@) {
        match part.str_at("text"@) {
            Some(text) => if text.len() == 0 {
                Seq::empty()
            } else {
                seq![thinking_block(text)]
            },
            None => Seq::empty(),
        }
    } else if is_tool_call(part) {
        let id = part.str_or("callID"@, ""@);
        let tool_use = tool_use_block(
            id,
            part.str_or("tool"@, ""@),
            native_stream::tool_input(part),
        );
        let status = part.str_in("state"@, "status"@);
        if status == Some("completed"@) {
            seq![tool_use, tool_result_block(id, state_str(part, "output"@, ""@))]
        } else if status == Some("error"@) {
            seq![tool_use, tool_error_block(id, state_str(part, "error"@, "unknown error"@))]
        } else {
            seq![tool_use]
        }
    } else {
        Seq::empty()
    }
}

/// The blocks for the parts of a reply, in order.
pub open spec fn all_reply_blocks(parts: Seq<JsonView>) -> Seq<JsonView>
    decreases parts.len(),
{
    if parts.len() == 0 {
        Seq::empty()
    } else {
        all_reply_blocks(parts.drop_last()) + reply_blocks(parts.last())
    }
}

/// Whether any part of a reply is a tool call.
pub open spec fn has_tool_call(parts: Seq<JsonView>) -> bool {
    exists|i: int| 0 <= i < parts.len() && is_tool_call(#[trigger] parts[i])
}

/// The content of a reply: its blocks, and one empty text where it has none.
pub open spec fn reply_content(parts: Seq<JsonView>) -> Seq<JsonView> {
    if all_reply_blocks(parts).len() == 0 {
        seq![text_part(""@)]
    } else {
        all_reply_blocks(parts)
    }
}

/// Why a reply stopped: `tool_use` when it has a tool call; otherwise
/// `max_tokens` when its info says `length`, and `end_turn` else.
pub open spec fn stop_reason(info: JsonView, parts: Seq<JsonView>) -> Seq<char> {
    if has_tool_call(parts) {
        "tool_use"@
    } else if info.str_at("finish"@) == Some("length"@) {
        "max_tokens"@
    } else {
        "end_turn"@
    }
}

/// The Anthropic message `id` for a native reply.
pub open spec fn anthropic_message(
    id: Seq<char>,
    info: JsonView,
    parts: JsonView,
    model: Seq<char>,
) -> JsonView {
    let list = turn::listed(parts);
    json::object_of(
        seq![
            ("id"@, JsonView::Str(id)),
            ("type"@, JsonView::Str("message"@)),
            ("role"@, JsonView::Str("assistant"@)),
            ("content"@, JsonView::Arr(reply_content(list))),
            ("model"@, JsonView::Str(model)),
            ("stop_reason"@, JsonView::Str(stop_reason(info, list))),
            ("stop_sequence"@, JsonView::Null),
            (
                "usage"@,
                native_stream::usage(
                    info.u64_in("tokens"@, "input"@),
                    info.u64_in("tokens"@, "output"@),
                ),
            ),
        ],
    )
}

/// The message of a native reply says why the reply stopped and what it cost.
pub proof fn law_message_tells_stop_and_usage(
    id: Seq<char>,
    info: JsonView,
    parts: JsonView,
    model: Seq<char>,
)
    ensures
        anthropic_message(id, info, parts, model).str_at("stop_reason"@) == Some(
            stop_reason(info, turn::listed(parts)),
        ),
        anthropic_message(id, info, parts, model).u64_in("usage"@, "input_tokens"@) == info.u64_in(
            "tokens"@,
            "input"@,
        ),
        anthropic_message(id, info, parts, model).u64_in("usage"@, "output_tokens"@)
            == info.u64_in("tokens"@, "output"@),
{
    let list = turn::listed(parts);
    let input = info.u64_in("tokens"@, "input"@);
    let output = info.u64_in("tokens"@, "output"@);
    let entries = seq![
        ("id"@, JsonView::Str(id)),
        ("type"@, JsonView::Str("message"@)),
        ("role"@, JsonView::Str("assistant"@)),
        ("content"@, JsonView::Arr(reply_content(list))),
        ("model"@, JsonView::Str(model)),
        ("stop_reason"@, JsonView::Str(stop_reason(info, list))),
        ("stop_sequence"@, JsonView::Null),
        ("usage"@, native_stream::usage(input, output)),
    ];
    reveal_strlit("stop_reason");
    reveal_strlit("stop_sequence");
    reveal_strlit("usage");
    assert("stop_reason"@[5] != "stop_sequence"@[5]);
    assert("stop_reason"@[0] != "usage"@[0]);
    json::law_object_has_last_value(entries, 5);
    json::law_object_has_last_value(entries, 7);
    let counts = seq![
        ("input_tokens"@, JsonView::Num(json::NumberView::Unsigned(input))),
        ("output_tokens"@, JsonView::Num(json::NumberView::Unsigned(output))),
    ];
    reveal_strlit("input_tokens");
    reveal_strlit("output_tokens");
    assert("input_tokens"@[0] != "output_tokens"@[0]);
    json::law_object_has_last_value(counts, 0);
    json::law_object_has_last_value(counts, 1);
}

/// A moment as a short identifier: its seconds and its nanoseconds in
/// hexadecimal.
pub open spec fn moment_id(secs: u64, nanos: u32) -> Seq<char> {
    text::hexadecimal(secs as nat) + text::hexadecimal(nanos as nat)
}

fn thinking_json(content: &str) -> (r: Json)
    ensures
        r@ == thinking_block(content@),
{
    let entries: Vec<(String, Json)> = vec![
        ("type".to_owned(), Json::Str("thinking".to_owned())),
        ("thinking".to_owned(), Json::Str(content.to_owned())),
    ];
    assert(json::model_members(entries@) =~= seq![
        ("type"@, JsonView::Str("thinking"@)),
        ("thinking"@, JsonView::Str(content@)),
    ]);
    object(entries)
}

fn tool_use_json(id: &str, name: &str, input: Json) -> (r: Json)
    ensures
        r@ == tool_use_block(id@, name@, input@),
{
    let ghost input_view = input@;
    let entries: Vec<(String, Json)> = vec![
        ("type".to_owned(), Json::Str("tool_use".to_owned())),
        ("id".to_owned(), Json::Str(id.to_owned())),
        ("name".to_owned(), Json::Str(name.to_owned())),
        ("input".to_owned(), input),
    ];
    assert(json::model_members(entries@) =~= seq![
        ("type"@, JsonView::Str("tool_use"@)),
        ("id"@, JsonView::Str(id@)),
        ("name"@, JsonView::Str(name@)),
        ("input"@, input_view),
    ]);
    object(entries)
}

fn tool_result_json(id: &str, content: &str) -> (r: Json)
    ensures
        r@ == tool_result_block(id@, content@),
{
    let entries: Vec<(String, Json)> = vec![
        ("type".to_owned(), Json::Str("tool_result".to_owned())),
        ("tool_use_id".to_owned(), Json::Str(id.to_owned())),
        ("content".to_owned(), Json::Str(content.to_owned())),
    ];
    assert(json::model_members(entries@) =~= seq![
        ("type"@, JsonView::Str("tool_result"@)),
        ("tool_use_id"@, JsonView::Str(id@)),
        ("content"@, JsonView::Str(content@)),
    ]);
    object(entries)
}

fn tool_error_json(id: &str, content: &str) -> (r: Json)
    ensures
        r@ == tool_error_block(id@, content@),
{
    let entries: Vec<(String, Json)> = vec![
        ("type".to_owned(), Json::Str("tool_result".to_owned())),
        ("tool_use_id".to_owned(), Json::Str(id.to_owned())),
        ("content".to_owned(), Json::Str(content.to_owned())),
        ("is_error".to_owned(), Json::Bool(true)),
    ];
    assert(json::model_members(entries@) =~= seq![
        ("type"@, JsonView::Str("tool_result"@)),
        ("tool_use_id"@, JsonView::Str(id@)),
        ("content"@, JsonView::Str(content@)),
        ("is_error"@, JsonView::Bool(true)),
    ]);
    object(entries)
}

fn read_state_str<'a>(part: &'a Json, key: &str, default: &'a str) -> (r: &'a str)
    ensures
        r@ == state_str(part@, key@, default@),
{
    match part.str_in("state", key) {
        Some(s) => s,
        None => default,
    }
}

/// Adds the blocks for a tool part; tells whether there were any.
fn map_tool_part(part: &Json, content: &mut Vec<Json>) -> (r: bool)
    requires
        part@.str_at("type"@) == Some("tool"@),
        part@.str_at("type"@) != Some("text"@),
        part@.str_at("type"@) != Some("reasoning"@),
    ensures
        r == is_tool_call(part@),
        json::model_items(final(content)@) == json::model_items(old(content)@) + reply_blocks(
            part@,
        ),
{
    let ghost before = json::model_items(content@);
    assert(before + Seq::<JsonView>::empty() =~= before);
    let call_id = part.str_or("callID", "");
    let tool = part.str_or("tool", "");
    if call_id.is_empty() || tool.is_empty() {
        return false;
    }
    let tool_use = tool_use_json(call_id, tool, tool_input_json(part));
    let ghost use_view = tool_use@;
    push_json(content, tool_use);
    assert(json::model_items(content@) =~= before + seq![use_view]);
    if let Some(status) = part.str_in("state", "status") {
        if same(status, "completed") {
            let result = tool_result_json(call_id, read_state_str(part, "output", ""));
            let ghost result_view = result@;
            push_json(content, result);
            assert(json::model_items(content@) =~= before + seq![use_view, result_view]);
        } else if same(status, "error") {
            let result = tool_error_json(call_id, read_state_str(part, "error", "unknown error"));
            let ghost result_view = result@;
            push_json(content, result);
            assert(json::model_items(content@) =~= before + seq![use_view, result_view]);
        }
    }
    true
}

/// Adds the blocks for one part; tells whether it is a tool call.
fn map_part(part: &Json, content: &mut Vec<Json>) -> (r: bool)
    ensures
        r == is_tool_call(part@),
        json::model_items(final(content)@) == json::model_items(old(content)@) + reply_blocks(
            part@,
        ),
{
    let ghost before = json::model_items(content@);
    assert(before + Seq::<JsonView>::empty() =~= before);
    proof {
        reveal_strlit("text");
        reveal_strlit("reasoning");
        reveal_strlit("tool");
        assert("text"@ != "tool"@ && "reasoning"@ != "tool"@) by {
            assert("text"@[1] != "tool"@[1]);
            assert("reasoning"@[0] != "tool"@[0]);
        }
    }
    if is_type(part, "text") {
        if let Some(s) = part.str_at("text") {
            if !s.is_empty() {
                push_json(content, text_part_json(s));
                assert(json::model_items(content@) =~= before + seq![text_part(s@)]);
            }
        }
        false
    } else if is_type(part, "reasoning") {
        if let Some(s) = part.str_at("text") {
            if !s.is_empty() {
                push_json(content, thinking_json(s));
                assert(json::model_items(content@) =~= before + seq![thinking_block(s@)]);
            }
        }
        false
    } else if is_type(part, "tool") {
        map_tool_part(part, content)
    } else {
        false
    }
}

/// Maps the parts of a reply to its content; tells whether it has a tool call.
fn map_reply(parts: &Json) -> (r: (Vec<Json>, bool))
    ensures
        json::model_items(r.0@) == reply_content(turn::listed(parts@)),
        r.1 == has_tool_call(turn::listed(parts@)),
{
    let mut content: Vec<Json> = Vec::new();
    let mut saw_tool_use = false;
    assert(json::model_items(content@) =~= Seq::empty());
    if let Some(items) = parts.as_array() {
        let ghost all = json::model_items(items@);
        let mut i: usize = 0;
        assert(all_reply_blocks(all.take(0)) =~= Seq::empty());
        while i < items.len()
            invariant
                i <= items@.len(),
                all == json::model_items(items@),
                json::model_items(content@) == all_reply_blocks(all.take(i as int)),
                saw_tool_use == exists|k: int| 0 <= k < i && is_tool_call(#[trigger] all[k]),
            decreases items@.len() - i,
        {
            assert(all.take(i + 1).drop_last() =~= all.take(i as int));
            assert(all.take(i + 1).last() == items@[i as int]@);
            assert(all[i as int] == items@[i as int]@);
            if map_part(&items[i], &mut content) {
                saw_tool_use = true;
            }
            i += 1;
        }
        assert(all.take(all.len() as int) =~= all);
    }
    if content.len() == 0 {
        assert(json::model_items(content@).len() == 0);
        push_json(&mut content, text_part_json(""));
        assert(json::model_items(content@) =~= seq![text_part(""@)]);
    } else {
        assert(json::model_items(content@).len() > 0);
    }
    (content, saw_tool_use)
}

/// Maps a native reply to the Anthropic message `id`.
pub fn native_response_with_id(id: &str, info: &Json, parts: &Json, model: &str) -> (r: Json)
    ensures
        r@ == anthropic_message(id@, info@, parts@, model@),
{
    broadcast use {json::lemma_model_arr, json::lemma_model_obj};

    let (content, saw_tool_use) = map_reply(parts);
    let length = match info.str_at("finish") {
        Some(finish) => same(finish, "length"),
        None => false,
    };
    let reason: &str = if saw_tool_use {
        "tool_use"
    } else if length {
        "max_tokens"
    } else {
        "end_turn"
    };
    let usage = usage_json(info.u64_in("tokens", "input"), info.u64_in("tokens", "output"));
    let ghost usage_view = usage@;
    let ghost content_view = json::model_items(content@);
    let entries: Vec<(String, Json)> = vec![
        ("id".to_owned(), Json::Str(id.to_owned())),
        ("type".to_owned(), Json::Str("message".to_owned())),
        ("role".to_owned(), Json::Str("assistant".to_owned())),
        ("content".to_owned(), Json::Arr(content)),
        ("model".to_owned(), Json::Str(model.to_owned())),
        ("stop_reason".to_owned(), Json::Str(reason.to_owned())),
        ("stop_sequence".to_owned(), Json::Null),
        ("usage".to_owned(), usage),
    ];
    assert(json::model_members(entries@) =~= seq![
        ("id"@, JsonView::Str(id@)),
        ("type"@, JsonView::Str("message"@)),
        ("role"@, JsonView::Str("assistant"@)),
        ("content"@, JsonView::Arr(content_view)),
        ("model"@, JsonView::Str(model@)),
        ("stop_reason"@, JsonView::Str(reason@)),
        ("stop_sequence"@, JsonView::Null),
        ("usage"@, usage_view),
    ]);
    object(entries)
}

/// `SystemTime::now`, as the time since the Unix epoch in whole seconds and
/// the nanoseconds beyond them (both 0 for a clock before the epoch). Of the
/// reading itself nothing is known but that the nanoseconds are less than a
/// second.
#[verifier::external_body]
pub(crate) fn unix_time() -> (r: (u64, u32))
    ensures
        r.1 < 1_000_000_000,
{
    let since = std::time::SystemTime::now()
        .duration_since(std::time::UNIX_EPOCH)
        .unwrap_or_default();
    (since.as_secs(), since.subsec_nanos())
}

/// Writes a moment as a short identifier.
pub fn moment_id_text(secs: u64, nanos: u32) -> (r: String)
    ensures
        r@ == moment_id(secs, nanos),
{
    let mut s = numeral_text(secs as u128, 16);
    s.append(numeral_text(nanos as u128, 16).as_str());
    s
}

/// A short identifier for the present moment.
pub fn uuid_short() -> (r: String)
    ensures
        exists|secs: u64, nanos: u32| nanos < 1_000_000_000 && r@ == #[trigger] moment_id(secs, nanos),
{
    let now = unix_time();
    moment_id_text(now.0, now.1)
}

/// Maps a native reply to an Anthropic message with an id of its own.
pub fn native_response_to_anthropic(info: &Json, parts: &Json, model: &str) -> (r: Json)
    ensures
        exists|secs: u64, nanos: u32|
            nanos < 1_000_000_000 && r@ == anthropic_message(
                "msg_"@ + #[trigger] moment_id(secs, nanos),
                info@,
                parts@,
                model@,
            ),
{
    let mut id = "msg_".to_owned();
    id.append(uuid_short().as_str());
    native_response_with_id(id.as_str(), info, parts, model)
}

/// The types of the parts and blocks that the mappings build.
pub proof fn lemma_types(a: Seq<char>, b: Seq<char>, v: JsonView)
    ensures
        text_part(a).str_at("type"@) == Some("text"@),
        text_part(a).str_at("text"@) == Some(a),
        file_part(a, b).str_at("type"@) == Some("file"@),
        thinking_block(a).str_at("type"@) == Some("thinking"@),
        thinking_block(a).str_at("thinking"@) == Some(a),
        tool_use_block(a, b, v).str_at("type"@) == Some("tool_use"@),
        tool_use_block(a, b, v).str_at("id"@) == Some(a),
        tool_result_block(a, b).str_at("type"@) == Some("tool_result"@),
        tool_result_block(a, b).str_at("tool_use_id"@) == Some(a),
        tool_error_block(a, b).str_at("type"@) == Some("tool_result"@),
        tool_error_block(a, b).str_at("tool_use_id"@) == Some(a),
{
    reveal_strlit("type");
    reveal_strlit("text");
    reveal_strlit("mime");
    reveal_strlit("url");
    reveal_strlit("thinking");
    reveal_strlit("id");
    reveal_strlit("name");
    reveal_strlit("input");
    reveal_strlit("tool_use_id");
    reveal_strlit("content");
    reveal_strlit("is_error");
    let ty = "type"@;
    assert(ty.len() == 4);
    assert("text"@[1] != ty[1]);
    assert("mime"@[0] != ty[0]);
    assert("url"@.len() == 3);
    assert("thinking"@.len() == 8);
    assert("id"@.len() == 2);
    assert("name"@[0] != ty[0]);
    assert("input"@.len() == 5);
    assert("tool_use_id"@.len() == 11);
    assert("content"@.len() == 7);
    assert("is_error"@.len() == 8);
    let t = seq![(ty, JsonView::Str("text"@)), ("text"@, JsonView::Str(a))];
    json::law_object_has_last_value(t, 0);
    json::law_object_has_last_value(t, 1);
    json::law_object_has_last_value(
        seq![
            (ty, JsonView::Str("file"@)),
            ("mime"@, JsonView::Str(a)),
            ("url"@, JsonView::Str(b)),
        ],
        0,
    );
    let k = seq![(ty, JsonView::Str("thinking"@)), ("thinking"@, JsonView::Str(a))];
    json::law_object_has_last_value(k, 0);
    json::law_object_has_last_value(k, 1);
    let u = seq![
        (ty, JsonView::Str("tool_use"@)),
        ("id"@, JsonView::Str(a)),
        ("name"@, JsonView::Str(b)),
        ("input"@, v),
    ];
    json::law_object_has_last_value(u, 0);
    json::law_object_has_last_value(u, 1);
    let r = seq![
        (ty, JsonView::Str("tool_result"@)),
        ("tool_use_id"@, JsonView::Str(a)),
        ("content"@, JsonView::Str(b)),
    ];
    json::law_object_has_last_value(r, 0);
    json::law_object_has_last_value(r, 1);
    let e = seq![
        (ty, JsonView::Str("tool_result"@)),
        ("tool_use_id"@, JsonView::Str(a)),
        ("content"@, JsonView::Str(b)),
        ("is_error"@, JsonView::Bool(true)),
    ];
    json::law_object_has_last_value(e, 0);
    json::law_object_has_last_value(e, 1);
}

/// The types are told apart.
pub proof fn lemma_types_differ()
    ensures
        "tool_result"@ != "text"@,
        "tool_result"@ != "thinking"@,
        "tool_result"@ != "tool_use"@,
        "tool_use"@ != "text"@,
        "tool_use"@ != "thinking"@,
        "text"@ != "thinking"@,
        "end_turn"@ != "tool_use"@,
        "max_tokens"@ != "tool_use"@,
{
    reveal_strlit("tool_result");
    reveal_strlit("text");
    reveal_strlit("thinking");
    reveal_strlit("tool_use");
    reveal_strlit("end_turn");
    reveal_strlit("max_tokens");
    assert("tool_use"@.len() == 8);
    assert("text"@.len() == 4);
    assert("thinking"@.len() == 8);
    assert("tool_result"@.len() == 11);
    assert("tool_use"@[1] != "thinking"@[1]);
    assert("end_turn"@[0] != "tool_use"@[0]);
    assert("max_tokens"@.len() == 10);
}

/// Whether a part is one that the native API takes.
pub open spec fn is_input_part(part: JsonView) -> bool {
    part.str_at("type"@) == Some("text"@) || part.str_at("type"@) == Some("file"@)
}

proof fn lemma_block_part_type(block: JsonView)
    ensures
        block_part(block) matches Some(part) ==> is_input_part(part),
{
    if let Some(s) = block.str_at("text"@) {
        lemma_types(s, s, block);
    }
    if let Some(source) = block.get("source"@) {
        let media_type = source.str_or("media_type"@, "image/png"@);
        if let Some(data) = source.str_at("data"@) {
            lemma_types(media_type, "data:"@ + media_type + ";base64,"@ + data, block);
        }
        if let Some(url) = source.str_at("url"@) {
            lemma_types("image/png"@, url, block);
        }
    }
}

proof fn lemma_block_parts_types(blocks: Seq<JsonView>, i: int)
    requires
        0 <= i < block_parts(blocks).len(),
    ensures
        is_input_part(block_parts(blocks)[i]),
    decreases blocks.len(),
{
    if blocks.len() > 0 {
        lemma_block_part_type(blocks.last());
        if i < block_parts(blocks.drop_last()).len() {
            lemma_block_parts_types(blocks.drop_last(), i);
        }
    }
}

/// A native request has only text and file parts.
pub proof fn law_input_is_text_or_file(messages: Seq<JsonView>, i: int)
    requires
        0 <= i < input_parts(messages).len(),
    ensures
        is_input_part(input_parts(messages)[i]),
    decreases messages.len(),
{
    if messages.len() > 0 {
        let before = input_parts(messages.drop_last());
        if i < before.len() {
            law_input_is_text_or_file(messages.drop_last(), i);
        } else {
            let m = messages.last();
            let k = i - before.len();
            assert(input_parts(messages)[i] == message_input(m)[k]);
            match m.get("content"@) {
                Some(JsonView::Str(s)) => {
                    lemma_types(s, s, m);
                },
                Some(JsonView::Arr(blocks)) => {
                    lemma_block_parts_types(blocks, k);
                },
                _ => {},
            }
        }
    }
}

/// Whether the `i`th of some blocks is no tool result, or follows the tool use
/// that it belongs to.
pub open spec fn paired(blocks: Seq<JsonView>, i: int) -> bool {
    blocks[i].str_at("type"@) == Some("tool_result"@) ==> {
        &&& i > 0
        &&& blocks[i - 1].str_at("type"@) == Some("tool_use"@)
        &&& blocks[i].str_at("tool_use_id"@) is Some
        &&& blocks[i - 1].str_at("id"@) == blocks[i].str_at("tool_use_id"@)
    }
}

proof fn lemma_part_blocks(part: JsonView)
    ensures
        forall|i: int| 0 <= i < reply_blocks(part).len() ==> #[trigger] paired(reply_blocks(part), i),
        forall|i: int|
            0 <= i < reply_blocks(part).len() && (#[trigger] reply_blocks(part)[i]).str_at("type"@)
                == Some("tool_use"@) ==> is_tool_call(part),
        is_tool_call(part) ==> reply_blocks(part).len() > 0 && reply_blocks(part)[0].str_at(
            "type"@,
        ) == Some("tool_use"@),
        forall|i: int|
            0 <= i < reply_blocks(part).len() && (#[trigger] reply_blocks(part)[i]).str_at("type"@)
                == Some("thinking"@) ==> reply_blocks(part)[i].str_at("thinking"@) is Some
                && reply_blocks(part)[i].str_at("thinking"@)->Some_0.len() > 0,
        forall|i: int|
            0 <= i < reply_blocks(part).len() && (#[trigger] reply_blocks(part)[i]).str_at("type"@)
                == Some("text"@) ==> reply_blocks(part)[i].str_at("text"@) is Some
                && reply_blocks(part)[i].str_at("text"@)->Some_0.len() > 0,
{
    lemma_types_differ();
    reveal_strlit("tool");
    reveal_strlit("text");
    reveal_strlit("reasoning");
    assert("tool"@[1] != "text"@[1]);
    assert("reasoning"@[0] != "tool"@[0]);
    if let Some(s) = part.str_at("text"@) {
        lemma_types(s, s, part);
    }
    let id = part.str_or("callID"@, ""@);
    lemma_types(id, part.str_or("tool"@, ""@), native_stream::tool_input(part));
    lemma_types(id, state_str(part, "output"@, ""@), part);
    lemma_types(id, state_str(part, "error"@, "unknown error"@), part);
}

/// Every tool result of an answer follows the tool use that it belongs to.
pub proof fn law_result_follows_its_tool_use(parts: Seq<JsonView>, i: int)
    requires
        0 <= i < reply_content(parts).len(),
    ensures
        paired(reply_content(parts), i),
{
    if all_reply_blocks(parts).len() == 0 {
        lemma_types_differ();
        lemma_types(""@, ""@, JsonView::Null);
    } else {
        lemma_all_paired(parts, i);
    }
}

proof fn lemma_all_paired(parts: Seq<JsonView>, i: int)
    requires
        0 <= i < all_reply_blocks(parts).len(),
    ensures
        paired(all_reply_blocks(parts), i),
    decreases parts.len(),
{
    if parts.len() > 0 {
        let all = all_reply_blocks(parts);
        let before = all_reply_blocks(parts.drop_last());
        let last = reply_blocks(parts.last());
        if i < before.len() {
            lemma_all_paired(parts.drop_last(), i);
            assert(all[i] == before[i]);
            if i > 0 {
                assert(all[i - 1] == before[i - 1]);
            }
        } else {
            let k = i - before.len();
            lemma_part_blocks(parts.last());
            assert(paired(last, k));
            assert(all[i] == last[k]);
            if k > 0 {
                assert(all[i - 1] == last[k - 1]);
            }
        }
    }
}

/// Whether some of the blocks is a tool use.
pub open spec fn shows_tool_use(blocks: Seq<JsonView>) -> bool {
    exists|i: int| 0 <= i < blocks.len() && (#[trigger] blocks[i]).str_at("type"@) == Some(
        "tool_use"@,
    )
}

proof fn lemma_tool_use_shown(parts: Seq<JsonView>)
    ensures
        shows_tool_use(all_reply_blocks(parts)) == has_tool_call(parts),
    decreases parts.len(),
{
    if parts.len() > 0 {
        let all = all_reply_blocks(parts);
        let start = parts.drop_last();
        let before = all_reply_blocks(start);
        let last = reply_blocks(parts.last());
        lemma_tool_use_shown(start);
        lemma_part_blocks(parts.last());
        if shows_tool_use(all) {
            let i = choose|i: int| 0 <= i < all.len() && (#[trigger] all[i]).str_at("type"@) == Some(
                "tool_use"@,
            );
            if i < before.len() {
                assert(before[i] == all[i]);
                let k = choose|k: int| 0 <= k < start.len() && is_tool_call(#[trigger] start[k]);
                assert(parts[k] == start[k]);
            } else {
                assert(last[i - before.len()] == all[i]);
                assert(is_tool_call(parts[parts.len() - 1]));
            }
        }
        if has_tool_call(parts) {
            let k = choose|k: int| 0 <= k < parts.len() && is_tool_call(#[trigger] parts[k]);
            if k < start.len() {
                assert(is_tool_call(start[k]));
                let i = choose|i: int| 0 <= i < before.len() && (#[trigger] before[i]).str_at(
                    "type"@,
                ) == Some("tool_use"@);
                assert(all[i] == before[i]);
            } else {
                assert(all[before.len() as int] == last[0]);
            }
        }
    }
}

/// An answer stops with `tool_use` exactly when it shows a tool use.
pub proof fn law_stop_reason_tells_tool_use(info: JsonView, parts: Seq<JsonView>)
    ensures
        (stop_reason(info, parts) == "tool_use"@) == shows_tool_use(reply_content(parts)),
{
    lemma_types_differ();
    lemma_types(""@, ""@, JsonView::Null);
    lemma_tool_use_shown(parts);
    if all_reply_blocks(parts).len() == 0 {
        assert(reply_content(parts)[0].str_at("type"@) != Some("tool_use"@));
    }
}

proof fn lemma_no_empty_block(parts: Seq<JsonView>, i: int)
    requires
        0 <= i < all_reply_blocks(parts).len(),
    ensures
        all_reply_blocks(parts)[i].str_at("type"@) == Some("thinking"@) ==> all_reply_blocks(
            parts,
        )[i].str_at("thinking"@) is Some && all_reply_blocks(parts)[i].str_at(
            "thinking"@,
        )->Some_0.len() > 0,
        all_reply_blocks(parts)[i].str_at("type"@) == Some("text"@) ==> all_reply_blocks(
            parts,
        )[i].str_at("text"@) is Some && all_reply_blocks(parts)[i].str_at("text"@)->Some_0.len()
            > 0,
    decreases parts.len(),
{
    if parts.len() > 0 {
        let before = all_reply_blocks(parts.drop_last());
        if i < before.len() {
            lemma_no_empty_block(parts.drop_last(), i);
        } else {
            lemma_part_blocks(parts.last());
            assert(all_reply_blocks(parts)[i] == reply_blocks(parts.last())[i - before.len()]);
        }
    }
}

/// An answer has content, and none of its thinking blocks is empty. Only the
/// one text block of an answer that has nothing else is empty.
pub proof fn law_no_empty_block(parts: Seq<JsonView>, i: int)
    requires
        0 <= i < reply_content(parts).len(),
    ensures
        reply_content(parts)[i].str_at("type"@) == Some("thinking"@) ==> reply_content(
            parts,
        )[i].str_at("thinking"@) is Some && reply_content(parts)[i].str_at(
            "thinking"@,
        )->Some_0.len() > 0,
        reply_content(parts)[i].str_at("text"@) == Some(""@) && reply_content(parts)[i].str_at(
            "type"@,
        ) == Some("text"@) ==> reply_content(parts).len() == 1,
{
    lemma_types_differ();
    lemma_types(""@, ""@, JsonView::Null);
    if all_reply_blocks(parts).len() > 0 {
        lemma_no_empty_block(parts, i);
        reveal_strlit("");
    }
}

} // verus!
