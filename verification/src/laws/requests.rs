//! Laws of requests: what of an Anthropic request reaches the native API, and
//! in which form.

use crate::json;
use crate::json::JsonView;
use crate::laws::values::{has_members, law_object_has_exactly_its_entries};
use crate::proxy::session;
use crate::proxy::upstream::ProxyErrorView;
use crate::text;
use crate::transform::native;
use crate::transform::native::{block_part, block_parts, block_texts, dropped_result_count, file_part};
use crate::transform::native::{image_part, input_parts, list_at, message_input, schemaless_count};
use crate::transform::native::{system_prompt, text_part, tool_result_count, NativeRequest};
use vstd::prelude::*;

verus! {

/// The text part that carries `s`.
pub open spec fn carries_text(part: JsonView, s: Seq<char>) -> bool {
    has_members(part, seq![("type"@, JsonView::Str("text"@)), ("text"@, JsonView::Str(s))])
}

/// The file part that carries a URL.
pub open spec fn carries_file(part: JsonView, mime: Seq<char>, url: Seq<char>) -> bool {
    has_members(
        part,
        seq![
            ("type"@, JsonView::Str("file"@)),
            ("mime"@, JsonView::Str(mime)),
            ("url"@, JsonView::Str(url)),
        ],
    )
}

pub proof fn lemma_text_part(s: Seq<char>)
    ensures
        carries_text(text_part(s), s),
{
    reveal_strlit("type");
    reveal_strlit("text");
    assert("type"@.len() == 4);
    assert("text"@.len() == 4);
    assert("type"@[1] != "text"@[1]);
    law_object_has_exactly_its_entries(
        seq![("type"@, JsonView::Str("text"@)), ("text"@, JsonView::Str(s))],
    );
}

proof fn lemma_file_part(mime: Seq<char>, url: Seq<char>)
    ensures
        carries_file(file_part(mime, url), mime, url),
{
    reveal_strlit("type");
    reveal_strlit("mime");
    reveal_strlit("url");
    assert("type"@.len() == 4);
    assert("mime"@.len() == 4);
    assert("url"@.len() == 3);
    assert("type"@[0] != "mime"@[0]);
    law_object_has_exactly_its_entries(
        seq![
            ("type"@, JsonView::Str("file"@)),
            ("mime"@, JsonView::Str(mime)),
            ("url"@, JsonView::Str(url)),
        ],
    );
}

/// A non-empty text of a message that is not the assistant's reaches the
/// native API whole and unchanged, as one text part: the content itself where
/// it is a string, and each text block.
pub proof fn law_text_is_carried_whole(message: JsonView, block: JsonView, s: Seq<char>)
    requires
        s.len() > 0,
    ensures
        message.get("role"@) != Some(JsonView::Str("assistant"@)) && message.get("content"@)
            == Some(JsonView::Str(s)) ==> message_input(message).len() == 1 && carries_text(
            message_input(message)[0],
            s,
        ),
        block.get("type"@) == Some(JsonView::Str("text"@)) && block.get("text"@) == Some(
            JsonView::Str(s),
        ) ==> block_parts(seq![block]).len() == 1 && carries_text(block_parts(seq![block])[0], s),
{
    lemma_text_part(s);
    lemma_one_block(block);
}

proof fn lemma_one_block(block: JsonView)
    ensures
        block_parts(seq![block]) == (match block_part(block) {
            Some(part) => seq![part],
            None => Seq::empty(),
        }),
{
    assert(seq![block].drop_last() =~= Seq::empty());
    assert(block_parts(seq![block].drop_last()) =~= Seq::empty());
    assert(seq![block].last() == block);
    if block_part(block) is Some {
        assert(block_parts(seq![block]) =~= seq![block_part(block)->Some_0]);
    }
}

/// An image block with data reaches the native API as a file part with a data
/// URL of its media type; one with a URL as a file part with that URL.
pub proof fn law_image_is_carried(
    block: JsonView,
    source: JsonView,
    media_type: Seq<char>,
    data: Seq<char>,
)
    requires
        block.get("type"@) == Some(JsonView::Str("image"@)),
        block.get("source"@) == Some(source),
        data.len() > 0,
    ensures
        source.get("type"@) == Some(JsonView::Str("base64"@)) && source.get("media_type"@) == Some(
            JsonView::Str(media_type),
        ) && source.get("data"@) == Some(JsonView::Str(data)) ==> block_parts(seq![block]).len()
            == 1 && carries_file(
            block_parts(seq![block])[0],
            media_type,
            "data:"@ + media_type + ";base64,"@ + data,
        ),
        source.get("type"@) == Some(JsonView::Str("base64"@)) && !(source.get(
            "media_type"@,
        ) matches Some(JsonView::Str(_))) && source.get("data"@) == Some(JsonView::Str(data))
            ==> block_parts(seq![block]).len() == 1 && carries_file(
            block_parts(seq![block])[0],
            "image/png"@,
            "data:"@ + "image/png"@ + ";base64,"@ + data,
        ),
        source.get("type"@) == Some(JsonView::Str("url"@)) && source.get("url"@) == Some(
            JsonView::Str(data),
        ) ==> block_parts(seq![block]).len() == 1 && carries_file(
            block_parts(seq![block])[0],
            "image/png"@,
            data,
        ),
{
    lemma_one_block(block);
    reveal_strlit("image");
    reveal_strlit("text");
    reveal_strlit("base64");
    reveal_strlit("url");
    assert("image"@.len() == 5);
    assert("text"@.len() == 4);
    assert("base64"@.len() == 6);
    assert("url"@.len() == 3);
    lemma_file_part(media_type, "data:"@ + media_type + ";base64,"@ + data);
    lemma_file_part("image/png"@, "data:"@ + "image/png"@ + ";base64,"@ + data);
    lemma_file_part("image/png"@, data);
    assert(block_part(block) == image_part(block));
}

/// Whether an image block has base64 data or a URL.
pub open spec fn has_picture(block: JsonView) -> bool {
    block.get("source"@) matches Some(source) && {
        ||| source.get("type"@) == Some(JsonView::Str("base64"@)) && (source.get(
            "data"@,
        ) matches Some(JsonView::Str(data)) && data.len() > 0)
        ||| source.get("type"@) == Some(JsonView::Str("url"@)) && (source.get("url"@) matches Some(
            JsonView::Str(url),
        ) && url.len() > 0)
    }
}

/// Nothing else of a request reaches the native API: no assistant message, no
/// block of another type, no empty text, and no image without data or URL.
pub proof fn law_nothing_else_is_carried(message: JsonView, block: JsonView)
    ensures
        message.get("role"@) == Some(JsonView::Str("assistant"@)) ==> message_input(message)
            == Seq::<JsonView>::empty(),
        message.get("content"@) matches Some(JsonView::Str(s)) ==> (s.len() == 0 ==> message_input(
            message,
        ) == Seq::<JsonView>::empty()),
        !(message.get("content"@) matches Some(JsonView::Str(_))) && !(message.get(
            "content"@,
        ) matches Some(JsonView::Arr(_))) ==> message_input(message) == Seq::<JsonView>::empty(),
        block.get("type"@) != Some(JsonView::Str("text"@)) && block.get("type"@) != Some(
            JsonView::Str("image"@),
        ) ==> block_parts(seq![block]) == Seq::<JsonView>::empty(),
        block.get("type"@) == Some(JsonView::Str("text"@)) && (block.get("text"@) matches Some(
            JsonView::Str(s),
        ) ==> s.len() == 0) ==> block_parts(seq![block]) == Seq::<JsonView>::empty(),
        block.get("type"@) == Some(JsonView::Str("image"@)) && !has_picture(block) ==> block_parts(
            seq![block],
        ) == Seq::<JsonView>::empty(),
{
    lemma_one_block(block);
    reveal_strlit("image");
    reveal_strlit("text");
    assert("image"@.len() == 5);
    assert("text"@.len() == 4);
}

/// The parts of a request stand in the order of its messages and of the blocks
/// in them, and every message and every block stands for itself.
pub proof fn law_input_adds_up(a: Seq<JsonView>, b: Seq<JsonView>, message: JsonView)
    ensures
        block_parts(a + b) == block_parts(a) + block_parts(b),
        block_parts(Seq::<JsonView>::empty()) == Seq::<JsonView>::empty(),
        input_parts(a + b) == input_parts(a) + input_parts(b),
        input_parts(Seq::<JsonView>::empty()) == Seq::<JsonView>::empty(),
        input_parts(seq![message]) == message_input(message),
        message.get("role"@) != Some(JsonView::Str("assistant"@)) ==> (message.get(
            "content"@,
        ) matches Some(JsonView::Arr(blocks)) ==> message_input(message) == block_parts(blocks)),
    decreases b.len(),
{
    assert(seq![message].drop_last() =~= Seq::empty());
    assert(input_parts(seq![message].drop_last()) =~= Seq::empty());
    assert(seq![message].last() == message);
    assert(input_parts(seq![message]) =~= message_input(message));
    if b.len() == 0 {
        assert(a + b =~= a);
        assert(block_parts(a) + block_parts(b) =~= block_parts(a));
        assert(input_parts(a) + input_parts(b) =~= input_parts(a));
    } else {
        assert((a + b).drop_last() =~= a + b.drop_last());
        assert((a + b).last() == b.last());
        law_input_adds_up(a, b.drop_last(), message);
        assert(block_parts(a + b) =~= block_parts(a) + block_parts(b));
        assert(input_parts(a + b) =~= input_parts(a) + input_parts(b));
    }
}

/// What is dropped is counted: every tool result of every message, and every
/// tool without a schema.
pub proof fn law_dropped_is_counted(a: Seq<JsonView>, b: Seq<JsonView>, v: JsonView)
    ensures
        tool_result_count(a + b) == tool_result_count(a) + tool_result_count(b),
        tool_result_count(Seq::<JsonView>::empty()) == 0,
        tool_result_count(seq![v]) == (if v.get("type"@) == Some(JsonView::Str("tool_result"@)) {
            1nat
        } else {
            0nat
        }),
        dropped_result_count(a + b) == dropped_result_count(a) + dropped_result_count(b),
        dropped_result_count(Seq::<JsonView>::empty()) == 0,
        v.get("content"@) matches Some(JsonView::Arr(blocks)) ==> dropped_result_count(seq![v])
            == tool_result_count(blocks),
        !(v.get("content"@) matches Some(JsonView::Arr(_))) ==> dropped_result_count(seq![v]) == 0,
        schemaless_count(a + b) == schemaless_count(a) + schemaless_count(b),
        schemaless_count(Seq::<JsonView>::empty()) == 0,
        schemaless_count(seq![v]) == (if v.get("input_schema"@) is None {
            1nat
        } else {
            0nat
        }),
    decreases b.len(),
{
    assert(seq![v].drop_last() =~= Seq::empty());
    assert(tool_result_count(seq![v].drop_last()) == 0);
    assert(dropped_result_count(seq![v].drop_last()) == 0);
    assert(schemaless_count(seq![v].drop_last()) == 0);
    assert(seq![v].last() == v);
    if b.len() == 0 {
        assert(a + b =~= a);
    } else {
        assert((a + b).drop_last() =~= a + b.drop_last());
        assert((a + b).last() == b.last());
        law_dropped_is_counted(a, b.drop_last(), v);
    }
}

/// The system prompt is the string as it is, or the texts of the blocks one
/// per line; there is none where that is empty.
pub proof fn law_system_prompt_is_kept(body: JsonView, s: Seq<char>, blocks: Seq<JsonView>)
    ensures
        body.get("system"@) == Some(JsonView::Str(s)) && s.len() > 0 ==> system_prompt(body)
            == Some(s),
        body.get("system"@) == Some(JsonView::Str(s)) && s.len() == 0 ==> system_prompt(body)
            is None,
        body.get("system"@) == Some(JsonView::Arr(blocks)) ==> (match system_prompt(body) {
            Some(all) => all.len() > 0 && all == text::joined(block_texts(blocks), "\n"@),
            None => text::joined(block_texts(blocks), "\n"@).len() == 0,
        }),
        !(body.get("system"@) matches Some(JsonView::Str(_))) && !(body.get("system"@) matches Some(
            JsonView::Arr(_),
        )) ==> system_prompt(body) is None,
{
}

/// The texts of blocks are those of the blocks that have one, in order and
/// unchanged.
pub proof fn law_block_texts_add_up(a: Seq<JsonView>, b: Seq<JsonView>, block: JsonView)
    ensures
        block_texts(a + b) == block_texts(a) + block_texts(b),
        block_texts(Seq::<JsonView>::empty()) == Seq::<Seq<char>>::empty(),
        block.get("text"@) matches Some(JsonView::Str(s)) ==> block_texts(seq![block]) == seq![s],
        !(block.get("text"@) matches Some(JsonView::Str(_))) ==> block_texts(seq![block]) == Seq::<
            Seq<char>,
        >::empty(),
    decreases b.len(),
{
    assert(seq![block].drop_last() =~= Seq::empty());
    assert(block_texts(seq![block].drop_last()) =~= Seq::empty());
    assert(seq![block].last() == block);
    if let Some(s) = block.str_at("text"@) {
        assert(block_texts(seq![block]) =~= seq![s]);
    }
    if b.len() == 0 {
        assert(a + b =~= a);
        assert(block_texts(a) + block_texts(b) =~= block_texts(a));
    } else {
        assert((a + b).drop_last() =~= a + b.drop_last());
        assert((a + b).last() == b.last());
        law_block_texts_add_up(a, b.drop_last(), block);
        assert(block_texts(a + b) =~= block_texts(a) + block_texts(b));
    }
}

/// A native request has the parts of all the messages of its body, the system
/// prompt and the model of its body, and counts what was dropped of it.
pub proof fn law_native_request_is_that_of_its_body(
    r: NativeRequest,
    body: JsonView,
    messages: Seq<JsonView>,
    tools: Seq<JsonView>,
    model: Seq<char>,
)
    requires
        session::is_native_request(r, body),
    ensures
        body.get("messages"@) == Some(JsonView::Arr(messages)) ==> json::model_items(r.parts@)
            == input_parts(messages) && r.dropped_tool_results == dropped_result_count(messages),
        !(body.get("messages"@) matches Some(JsonView::Arr(_))) ==> r.parts@.len() == 0
            && r.dropped_tool_results == 0,
        body.get("tools"@) == Some(JsonView::Arr(tools)) ==> r.dropped_tools == schemaless_count(
            tools,
        ),
        !(body.get("tools"@) matches Some(JsonView::Arr(_))) ==> r.dropped_tools == 0,
        body.get("model"@) == Some(JsonView::Str(model)) ==> r.model_id@ == model,
        !(body.get("model"@) matches Some(JsonView::Str(_))) ==> r.model_id@ == ""@,
        text::opt_string(r.system) == system_prompt(body),
{
    assert(json::model_items(r.parts@).len() == r.parts@.len());
}

/// The lists of a body are read as they are.
pub proof fn law_lists_are_read_as_they_are(body: JsonView, key: Seq<char>, items: Seq<JsonView>)
    ensures
        body.get(key) == Some(JsonView::Arr(items)) ==> list_at(body, key) == items,
        !(body.get(key) matches Some(JsonView::Arr(_))) ==> list_at(body, key) == Seq::<
            JsonView,
        >::empty(),
{
}

/// A prompt names the model and the provider, and has the parts and the system
/// prompt of the request, if there is one, and nothing else.
pub proof fn law_prompt_has_the_request(
    model_id: Seq<char>,
    parts: Seq<JsonView>,
    system: Seq<char>,
)
    ensures
        ({
            let v = session::prompt_message(model_id, parts, Some(system));
            &&& v.get("model"@) is Some
            &&& has_members(
                v,
                seq![
                    ("model"@, v.get("model"@)->Some_0),
                    ("parts"@, JsonView::Arr(parts)),
                    ("system"@, JsonView::Str(system)),
                ],
            )
            &&& has_members(
                v.get("model"@)->Some_0,
                seq![
                    ("providerID"@, JsonView::Str("opencode"@)),
                    ("modelID"@, JsonView::Str(model_id)),
                ],
            )
        }),
        ({
            let v = session::prompt_message(model_id, parts, None);
            &&& v.get("model"@) is Some
            &&& has_members(
                v,
                seq![("model"@, v.get("model"@)->Some_0), ("parts"@, JsonView::Arr(parts))],
            )
            &&& has_members(
                v.get("model"@)->Some_0,
                seq![
                    ("providerID"@, JsonView::Str("opencode"@)),
                    ("modelID"@, JsonView::Str(model_id)),
                ],
            )
        }),
{
    reveal_strlit("model");
    reveal_strlit("parts");
    reveal_strlit("system");
    reveal_strlit("providerID");
    reveal_strlit("modelID");
    assert("model"@.len() == 5);
    assert("parts"@.len() == 5);
    assert("system"@.len() == 6);
    assert("providerID"@.len() == 10);
    assert("modelID"@.len() == 7);
    assert("model"@[0] != "parts"@[0]);
    let model_entries = seq![
        ("providerID"@, JsonView::Str("opencode"@)),
        ("modelID"@, JsonView::Str(model_id)),
    ];
    law_object_has_exactly_its_entries(model_entries);
    let model = json::object_of(model_entries);
    let base = seq![("model"@, model), ("parts"@, JsonView::Arr(parts))];
    let full = seq![
        ("model"@, model),
        ("parts"@, JsonView::Arr(parts)),
        ("system"@, JsonView::Str(system)),
    ];
    law_object_has_exactly_its_entries(base);
    law_object_has_exactly_its_entries(full);
    assert(base.push(("system"@, JsonView::Str(system))) =~= full);
    assert(base[0] == ("model"@, model));
    assert(full[0] == ("model"@, model));
}

/// A body is refused exactly when the server is not on this machine or there
/// is nothing to send, and the message says which.
pub proof fn law_refusals(loopback: bool, base_url: Seq<char>, body: JsonView, messages: Seq<JsonView>)
    requires
        body.get("messages"@) == Some(JsonView::Arr(messages)),
    ensures
        !loopback ==> session::refusal(loopback, base_url, body) == Some(
            ProxyErrorView::RequestFailed("refusing non-loopback native upstream: "@ + base_url),
        ),
        loopback && input_parts(messages).len() == 0 ==> session::refusal(loopback, base_url, body)
            == Some(
            ProxyErrorView::RequestFailed(
                "no mappable native input parts (only text/image content is supported)"@,
            ),
        ),
        loopback && input_parts(messages).len() > 0 ==> session::refusal(loopback, base_url, body)
            is None,
{
}

} // verus!
