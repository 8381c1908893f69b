//! Laws of replies: what an answer shows of a native reply, and which parts of
//! the message list a unary answer is made from.

use crate::json;
use crate::json::{JsonView, NumberView};
use crate::laws::turns::role_is;
use crate::laws::values;
use crate::laws::values::{has_members, law_object_has_exactly_its_entries};
use crate::laws::requests::{carries_text, lemma_text_part};
use crate::proxy::reply;
use crate::proxy::reply::{after_id, assistants, history_turn};
use crate::text;
use crate::transform::native;
use crate::transform::native::{all_reply_blocks, anthropic_message, reply_blocks, reply_content};
use crate::transform::native::{stop_reason, thinking_block, tool_error_block, tool_result_block};
use crate::transform::native::{text_part, tool_use_block};
use crate::transform::native_stream;
use crate::transform::turn;
use crate::transform::turn::parts_of;
use vstd::prelude::*;

verus! {

proof fn lemma_thinking_block(s: Seq<char>)
    ensures
        has_members(
            thinking_block(s),
            seq![
            ("type"@, JsonView::Str("thinking"@)),
            ("thinking"@, JsonView::Str(s)),
        ],
        ),
{
    reveal_strlit("type");
    reveal_strlit("thinking");
    assert("type"@.len() == 4);
    assert("thinking"@.len() == 8);
    law_object_has_exactly_its_entries(
        seq![
            ("type"@, JsonView::Str("thinking"@)),
            ("thinking"@, JsonView::Str(s)),
        ],
    );
}

proof fn lemma_tool_use_block(id: Seq<char>, name: Seq<char>, input: JsonView)
    ensures
        has_members(
            tool_use_block(id, name, input),
            seq![
            ("type"@, JsonView::Str("tool_use"@)),
            ("id"@, JsonView::Str(id)),
            ("name"@, JsonView::Str(name)),
            ("input"@, input),
        ],
        ),
{
    reveal_strlit("type");
    reveal_strlit("id");
    reveal_strlit("name");
    reveal_strlit("input");
    assert("type"@.len() == 4);
    assert("id"@.len() == 2);
    assert("name"@.len() == 4);
    assert("input"@.len() == 5);
    assert("type"@[0] != "name"@[0]);
    law_object_has_exactly_its_entries(
        seq![
            ("type"@, JsonView::Str("tool_use"@)),
            ("id"@, JsonView::Str(id)),
            ("name"@, JsonView::Str(name)),
            ("input"@, input),
        ],
    );
}

proof fn lemma_tool_result_block(id: Seq<char>, content: Seq<char>)
    ensures
        has_members(
            tool_result_block(id, content),
            seq![
            ("type"@, JsonView::Str("tool_result"@)),
            ("tool_use_id"@, JsonView::Str(id)),
            ("content"@, JsonView::Str(content)),
        ],
        ),
{
    reveal_strlit("type");
    reveal_strlit("tool_use_id");
    reveal_strlit("content");
    assert("type"@.len() == 4);
    assert("tool_use_id"@.len() == 11);
    assert("content"@.len() == 7);
    law_object_has_exactly_its_entries(
        seq![
            ("type"@, JsonView::Str("tool_result"@)),
            ("tool_use_id"@, JsonView::Str(id)),
            ("content"@, JsonView::Str(content)),
        ],
    );
}

proof fn lemma_tool_error_block(id: Seq<char>, content: Seq<char>)
    ensures
        has_members(
            tool_error_block(id, content),
            seq![
            ("type"@, JsonView::Str("tool_result"@)),
            ("tool_use_id"@, JsonView::Str(id)),
            ("content"@, JsonView::Str(content)),
            ("is_error"@, JsonView::Bool(true)),
        ],
        ),
{
    reveal_strlit("type");
    reveal_strlit("tool_use_id");
    reveal_strlit("content");
    reveal_strlit("is_error");
    assert("type"@.len() == 4);
    assert("tool_use_id"@.len() == 11);
    assert("content"@.len() == 7);
    assert("is_error"@.len() == 8);
    law_object_has_exactly_its_entries(
        seq![
            ("type"@, JsonView::Str("tool_result"@)),
            ("tool_use_id"@, JsonView::Str(id)),
            ("content"@, JsonView::Str(content)),
            ("is_error"@, JsonView::Bool(true)),
        ],
    );
}

proof fn lemma_kinds()
    ensures
        "text"@ != "reasoning"@,
        "text"@ != "tool"@,
        "reasoning"@ != "tool"@,
        "completed"@ != "error"@,
{
    reveal_strlit("text");
    reveal_strlit("reasoning");
    reveal_strlit("tool");
    reveal_strlit("completed");
    reveal_strlit("error");
    assert("text"@.len() == 4);
    assert("reasoning"@.len() == 9);
    assert("tool"@.len() == 4);
    assert("completed"@.len() == 9);
    assert("error"@.len() == 5);
    assert("text"@[1] != "tool"@[1]);
    assert("reasoning"@[0] != "completed"@[0]);
}

/// A text part that is not empty is shown as one text block with its whole
/// text, and a reasoning part as one thinking block.
pub proof fn law_text_is_shown_whole(part: JsonView, s: Seq<char>)
    requires
        part.get("text"@) == Some(JsonView::Str(s)),
        s.len() > 0,
    ensures
        part.get("type"@) == Some(JsonView::Str("text"@)) ==> reply_blocks(part).len() == 1
            && carries_text(reply_blocks(part)[0], s),
        part.get("type"@) == Some(JsonView::Str("reasoning"@)) ==> reply_blocks(part).len() == 1
            && has_members(
            reply_blocks(part)[0],
            seq![("type"@, JsonView::Str("thinking"@)), ("thinking"@, JsonView::Str(s))],
        ),
{
    lemma_kinds();
    lemma_text_part(s);
    lemma_thinking_block(s);
}

/// A tool call is shown as a tool_use block with its call id, its tool and its
/// whole input, an empty object where it has none. Right after it stands, for
/// a completed one, a result with its whole output (empty where it has none),
/// and for a failed one, a result with its whole error. A tool that has not
/// settled has no result.
pub proof fn law_tool_is_shown_whole(part: JsonView, id: Seq<char>, tool: Seq<char>)
    requires
        part.get("type"@) == Some(JsonView::Str("tool"@)),
        part.get("callID"@) == Some(JsonView::Str(id)),
        part.get("tool"@) == Some(JsonView::Str(tool)),
        id.len() > 0,
        tool.len() > 0,
    ensures
        reply_blocks(part).len() > 0,
        has_members(
            reply_blocks(part)[0],
            seq![
                ("type"@, JsonView::Str("tool_use"@)),
                ("id"@, JsonView::Str(id)),
                ("name"@, JsonView::Str(tool)),
                (
                    "input"@,
                    match part.get_in("state"@, "input"@) {
                        Some(input) => input,
                        None => JsonView::Obj(Seq::empty()),
                    },
                ),
            ],
        ),
        part.get_in("state"@, "status"@) == Some(JsonView::Str("completed"@)) ==> reply_blocks(
            part,
        ).len() == 2 && has_members(
            reply_blocks(part)[1],
            seq![
                ("type"@, JsonView::Str("tool_result"@)),
                ("tool_use_id"@, JsonView::Str(id)),
                (
                    "content"@,
                    match part.get_in("state"@, "output"@) {
                        Some(JsonView::Str(output)) => JsonView::Str(output),
                        _ => JsonView::Str(""@),
                    },
                ),
            ],
        ),
        part.get_in("state"@, "status"@) == Some(JsonView::Str("error"@)) ==> reply_blocks(
            part,
        ).len() == 2 && has_members(
            reply_blocks(part)[1],
            seq![
                ("type"@, JsonView::Str("tool_result"@)),
                ("tool_use_id"@, JsonView::Str(id)),
                (
                    "content"@,
                    match part.get_in("state"@, "error"@) {
                        Some(JsonView::Str(error)) => JsonView::Str(error),
                        _ => JsonView::Str("unknown error"@),
                    },
                ),
                ("is_error"@, JsonView::Bool(true)),
            ],
        ),
        part.get_in("state"@, "status"@) != Some(JsonView::Str("completed"@)) && part.get_in(
            "state"@,
            "status"@,
        ) != Some(JsonView::Str("error"@)) ==> reply_blocks(part).len() == 1,
{
    lemma_kinds();
    let output = match part.get_in("state"@, "output"@) {
        Some(JsonView::Str(output)) => output,
        _ => ""@,
    };
    let error = match part.get_in("state"@, "error"@) {
        Some(JsonView::Str(error)) => error,
        _ => "unknown error"@,
    };
    let input = match part.get_in("state"@, "input"@) {
        Some(input) => input,
        None => JsonView::Obj(Seq::empty()),
    };
    lemma_tool_use_block(id, tool, input);
    lemma_tool_result_block(id, output);
    lemma_tool_error_block(id, error);
    assert(native::state_str(part, "output"@, ""@) == output);
    assert(native::state_str(part, "error"@, "unknown error"@) == error);
    assert(native_stream::tool_input(part) == input);
}

/// Other parts are not shown: parts of another type, empty ones, and tool
/// parts without a call id or a tool.
pub proof fn law_nothing_else_is_shown(part: JsonView)
    ensures
        part.get("type"@) != Some(JsonView::Str("text"@)) && part.get("type"@) != Some(
            JsonView::Str("reasoning"@),
        ) && part.get("type"@) != Some(JsonView::Str("tool"@)) ==> reply_blocks(part).len() == 0,
        part.get("type"@) != Some(JsonView::Str("tool"@)) && (part.get("text"@) matches Some(
            JsonView::Str(s),
        ) ==> s.len() == 0) ==> reply_blocks(part).len() == 0,
        part.get("type"@) == Some(JsonView::Str("tool"@)) && (part.get("callID"@) matches Some(
            JsonView::Str(s),
        ) ==> s.len() == 0) ==> reply_blocks(part).len() == 0,
        part.get("type"@) == Some(JsonView::Str("tool"@)) && (part.get("tool"@) matches Some(
            JsonView::Str(s),
        ) ==> s.len() == 0) ==> reply_blocks(part).len() == 0,
{
    lemma_kinds();
    reveal_strlit("");
}

/// The blocks of a reply stand in the order of its parts, and every part
/// stands for itself.
pub proof fn law_blocks_add_up(a: Seq<JsonView>, b: Seq<JsonView>, part: JsonView)
    ensures
        all_reply_blocks(a + b) == all_reply_blocks(a) + all_reply_blocks(b),
        all_reply_blocks(Seq::<JsonView>::empty()) == Seq::<JsonView>::empty(),
        all_reply_blocks(seq![part]) == reply_blocks(part),
    decreases b.len(),
{
    assert(seq![part].drop_last() =~= Seq::empty());
    assert(all_reply_blocks(seq![part].drop_last()) =~= Seq::empty());
    assert(seq![part].last() == part);
    assert(all_reply_blocks(seq![part]) =~= reply_blocks(part));
    if b.len() == 0 {
        assert(a + b =~= a);
        assert(all_reply_blocks(a) + all_reply_blocks(b) =~= all_reply_blocks(a));
    } else {
        assert((a + b).drop_last() =~= a + b.drop_last());
        assert((a + b).last() == b.last());
        law_blocks_add_up(a, b.drop_last(), part);
        assert(all_reply_blocks(a + b) =~= all_reply_blocks(a) + all_reply_blocks(b));
    }
}

/// The content of a message has all the blocks of its parts; where there are
/// none, it is one empty text.
pub proof fn law_content_is_the_blocks(parts: Seq<JsonView>)
    ensures
        all_reply_blocks(parts).len() > 0 ==> reply_content(parts) == all_reply_blocks(parts),
        all_reply_blocks(parts).len() == 0 ==> reply_content(parts).len() == 1 && carries_text(
            reply_content(parts)[0],
            ""@,
        ),
{
    lemma_text_part(""@);
}

/// A message has its id, its model, the content of its parts, the reason why
/// it stopped and the tokens of its info, and nothing else.
pub proof fn law_message_has_the_reply(
    id: Seq<char>,
    info: JsonView,
    parts: Seq<JsonView>,
    model: Seq<char>,
)
    ensures
        ({
            let v = anthropic_message(id, info, JsonView::Arr(parts), model);
            &&& v.get("usage"@) is Some
            &&& has_members(
                v,
                seq![
                    ("id"@, JsonView::Str(id)),
                    ("type"@, JsonView::Str("message"@)),
                    ("role"@, JsonView::Str("assistant"@)),
                    ("content"@, JsonView::Arr(reply_content(parts))),
                    ("model"@, JsonView::Str(model)),
                    ("stop_reason"@, JsonView::Str(stop_reason(info, parts))),
                    ("stop_sequence"@, JsonView::Null),
                    ("usage"@, v.get("usage"@)->Some_0),
                ],
            )
            &&& has_members(
                v.get("usage"@)->Some_0,
                seq![
                    (
                        "input_tokens"@,
                        match info.get_in("tokens"@, "input"@) {
                            Some(JsonView::Num(NumberView::Unsigned(n))) => JsonView::Num(
                                NumberView::Unsigned(n),
                            ),
                            _ => JsonView::Num(NumberView::Unsigned(0)),
                        },
                    ),
                    (
                        "output_tokens"@,
                        match info.get_in("tokens"@, "output"@) {
                            Some(JsonView::Num(NumberView::Unsigned(n))) => JsonView::Num(
                                NumberView::Unsigned(n),
                            ),
                            _ => JsonView::Num(NumberView::Unsigned(0)),
                        },
                    ),
                ],
            )
        }),
{
    reveal_strlit("id");
    reveal_strlit("type");
    reveal_strlit("role");
    reveal_strlit("content");
    reveal_strlit("model");
    reveal_strlit("stop_reason");
    reveal_strlit("stop_sequence");
    reveal_strlit("usage");
    assert("id"@.len() == 2);
    assert("type"@.len() == 4);
    assert("role"@.len() == 4);
    assert("content"@.len() == 7);
    assert("model"@.len() == 5);
    assert("stop_reason"@.len() == 11);
    assert("stop_sequence"@.len() == 13);
    assert("usage"@.len() == 5);
    assert("type"@[0] != "role"@[0]);
    assert("model"@[0] != "usage"@[0]);
    let input = info.u64_in("tokens"@, "input"@);
    let output = info.u64_in("tokens"@, "output"@);
    lemma_usage(input, output);
    let entries = seq![
        ("id"@, JsonView::Str(id)),
        ("type"@, JsonView::Str("message"@)),
        ("role"@, JsonView::Str("assistant"@)),
        ("content"@, JsonView::Arr(reply_content(parts))),
        ("model"@, JsonView::Str(model)),
        ("stop_reason"@, JsonView::Str(stop_reason(info, parts))),
        ("stop_sequence"@, JsonView::Null),
        ("usage"@, native_stream::usage(input, output)),
    ];
    law_object_has_exactly_its_entries(entries);
    assert(entries[7] == ("usage"@, native_stream::usage(input, output)));
}

pub proof fn lemma_usage(input: u64, output: u64)
    ensures
        has_members(
            native_stream::usage(input, output),
            seq![
                ("input_tokens"@, JsonView::Num(NumberView::Unsigned(input))),
                ("output_tokens"@, JsonView::Num(NumberView::Unsigned(output))),
            ],
        ),
{
    reveal_strlit("input_tokens");
    reveal_strlit("output_tokens");
    assert("input_tokens"@.len() == 12);
    assert("output_tokens"@.len() == 13);
    law_object_has_exactly_its_entries(
        seq![
            ("input_tokens"@, JsonView::Num(NumberView::Unsigned(input))),
            ("output_tokens"@, JsonView::Num(NumberView::Unsigned(output))),
        ],
    );
}

/// Why a message stopped: for its tools when it shows a tool use, for its
/// length when the info says so, and else because the turn has ended.
pub proof fn law_stop_reasons(info: JsonView, parts: Seq<JsonView>)
    ensures
        ({
            let tool_use = exists|i: int|
                0 <= i < reply_content(parts).len() && (#[trigger] reply_content(parts)[i]).get(
                    "type"@,
                ) == Some(JsonView::Str("tool_use"@));
            let length = info.get("finish"@) == Some(JsonView::Str("length"@));
            &&& tool_use ==> stop_reason(info, parts) == "tool_use"@
            &&& !tool_use && length ==> stop_reason(info, parts) == "max_tokens"@
            &&& !tool_use && !length ==> stop_reason(info, parts) == "end_turn"@
        }),
{
    native::law_stop_reason_tells_tool_use(info, parts);
    native::lemma_types_differ();
    let content = reply_content(parts);
    let tool_use = exists|i: int|
        0 <= i < content.len() && (#[trigger] content[i]).get("type"@) == Some(
            JsonView::Str("tool_use"@),
        );
    assert(tool_use == native::shows_tool_use(content)) by {
        if native::shows_tool_use(content) {
            let i = choose|i: int|
                0 <= i < content.len() && (#[trigger] content[i]).str_at("type"@) == Some(
                    "tool_use"@,
                );
            assert(content[i].get("type"@) == Some(JsonView::Str("tool_use"@)));
        }
        if tool_use {
            let i = choose|i: int|
                0 <= i < content.len() && (#[trigger] content[i]).get("type"@) == Some(
                    JsonView::Str("tool_use"@),
                );
            assert(content[i].str_at("type"@) == Some("tool_use"@));
        }
    }
}

/// The name that a message id has for a moment is its seconds and its
/// nanoseconds, both in hexadecimal.
pub proof fn law_message_id_tells_the_moment(secs: u64, nanos: u32)
    ensures
        exists|k: int|
            0 < k < native::moment_id(secs, nanos).len() && #[trigger] values::numeral_value(
                native::moment_id(secs, nanos).take(k),
                16,
            ) == secs && values::numeral_value(native::moment_id(secs, nanos).skip(k), 16) == nanos,
{
    let a = text::numeral(secs as nat, 16);
    let b = text::numeral(nanos as nat, 16);
    values::law_numeral_reads_back(secs as nat, 16);
    values::law_numeral_reads_back(nanos as nat, 16);
    let k = a.len() as int;
    assert(native::moment_id(secs, nanos).take(k) =~= a);
    assert(native::moment_id(secs, nanos).skip(k) =~= b);
    assert(values::numeral_value(native::moment_id(secs, nanos).take(k), 16) == secs);
}

/// Whether a message is the assistant's.
pub open spec fn is_assistant() -> spec_fn(JsonView) -> bool {
    |m: JsonView| role_is(m, "assistant"@)
}

/// Whether a message has an info with the id `id`; an info without an id has
/// the empty one.
pub open spec fn id_is(m: JsonView, id: Seq<char>) -> bool {
    m.get("info"@) matches Some(info) && (match info.get("id"@) {
        Some(JsonView::Str(s)) => s == id,
        _ => id.len() == 0,
    })
}

proof fn lemma_has_id(m: JsonView, id: Seq<char>)
    ensures
        reply::has_id(m, id) == id_is(m, id),
{
    reveal_strlit("");
    if id.len() == 0 {
        assert(""@ =~= id);
    }
}

proof fn lemma_assistants_filter(messages: Seq<JsonView>)
    ensures
        assistants(messages) == messages.filter(is_assistant()),
    decreases messages.len(),
{
    reveal(Seq::filter);
    if messages.len() > 0 {
        lemma_assistants_filter(messages.drop_last());
        let m = messages.last();
        assert(is_assistant()(m) == turn::has_role(m, "assistant"@));
    } else {
        assert(messages =~= Seq::empty());
    }
}

proof fn lemma_after_id(list: Seq<JsonView>, parent: Seq<char>, at: int)
    requires
        0 <= at < list.len(),
        id_is(list[at], parent),
        forall|j: int| 0 <= j < at ==> !id_is(#[trigger] list[j], parent),
    ensures
        after_id(list, parent) == Some(list.skip(at + 1)),
    decreases list.len(),
{
    lemma_has_id(list[0], parent);
    if at == 0 {
        assert(list.drop_first() =~= list.skip(1));
    } else {
        let rest = list.drop_first();
        assert(!id_is(list[0], parent));
        assert(!reply::has_id(list[0], parent));
        assert(rest[at - 1] == list[at]);
        assert forall|j: int| 0 <= j < at - 1 implies !id_is(#[trigger] rest[j], parent) by {
            assert(rest[j] == list[j + 1]);
        }
        lemma_after_id(rest, parent, at - 1);
        assert(rest.skip(at) =~= list.skip(at + 1));
    }
}

proof fn lemma_after_no_id(list: Seq<JsonView>, parent: Seq<char>)
    requires
        forall|j: int| 0 <= j < list.len() ==> !id_is(#[trigger] list[j], parent),
    ensures
        after_id(list, parent) is None,
    decreases list.len(),
{
    if list.len() > 0 {
        lemma_has_id(list[0], parent);
        let rest = list.drop_first();
        assert(!id_is(list[0], parent));
        assert forall|j: int| 0 <= j < rest.len() implies !id_is(#[trigger] rest[j], parent) by {
            assert(rest[j] == list[j + 1]);
        }
        lemma_after_no_id(rest, parent);
    }
}

/// The turn of a prompt, where the list has the user message that its answer
/// names as its parent, is made of all the assistant messages after that
/// message: all their parts, in the order of the list, and the info of the
/// last of them. There is no turn where they have no parts.
pub proof fn law_merged_turn_is_complete(
    prompt_info: JsonView,
    list: Seq<JsonView>,
    parent: Seq<char>,
    at: int,
)
    requires
        prompt_info.get("parentID"@) == Some(JsonView::Str(parent)),
        0 <= at < list.len(),
        id_is(list[at], parent),
        forall|j: int| 0 <= j < at ==> !id_is(#[trigger] list[j], parent),
    ensures
        ({
            let turn = list.skip(at + 1).filter(is_assistant());
            let parts = parts_of(turn);
            &&& parts.len() == 0 ==> history_turn(prompt_info, JsonView::Arr(list)) is None
            &&& parts.len() > 0 ==> turn.len() > 0 && turn[turn.len() - 1].get("info"@) is Some
                && history_turn(prompt_info, JsonView::Arr(list)) == Some(
                (turn[turn.len() - 1].get("info"@)->Some_0, JsonView::Arr(parts)),
            )
        }),
{
    lemma_after_id(list, parent, at);
    let rest = list.skip(at + 1);
    lemma_assistants_filter(rest);
    let turn = assistants(rest);
    if parts_of(turn).len() > 0 {
        assert(turn.len() > 0);
        lemma_assistant_has_info(rest, turn.len() - 1);
    }
}

proof fn lemma_assistant_has_info(rest: Seq<JsonView>, i: int)
    requires
        0 <= i < assistants(rest).len(),
    ensures
        assistants(rest)[i].get("info"@) is Some,
    decreases rest.len(),
{
    if rest.len() > 0 {
        if i < assistants(rest.drop_last()).len() {
            lemma_assistant_has_info(rest.drop_last(), i);
        }
    }
}

/// Without the named message there is no turn: not in a list that does not
/// have it, not in a value that is no list, and not for an answer that names
/// none.
pub proof fn law_no_merged_turn(prompt_info: JsonView, messages: JsonView, parent: Seq<char>)
    ensures
        !(prompt_info.get("parentID"@) matches Some(JsonView::Str(_))) ==> history_turn(
            prompt_info,
            messages,
        ) is None,
        !(messages is Arr) ==> history_turn(prompt_info, messages) is None,
        prompt_info.get("parentID"@) == Some(JsonView::Str(parent)) && (
        messages matches JsonView::Arr(list) && forall|j: int|
            0 <= j < list.len() ==> !id_is(#[trigger] list[j], parent)) ==> history_turn(
            prompt_info,
            messages,
        ) is None,
{
    if prompt_info.get("parentID"@) == Some(JsonView::Str(parent)) {
        if let JsonView::Arr(list) = messages {
            if forall|j: int| 0 <= j < list.len() ==> !id_is(#[trigger] list[j], parent) {
                lemma_after_no_id(list, parent);
            }
        }
    }
}

/// An answer is made from the whole turn where the message list shows it, and
/// else from the info and the parts of the answer to the prompt itself.
pub proof fn law_answer_is_made_from_the_turn(
    prompt: JsonView,
    messages: JsonView,
    info: JsonView,
    parts: JsonView,
)
    requires
        prompt.get("info"@) == Some(info),
        prompt.get("parts"@) == Some(parts),
    ensures
        reply::answer_source(prompt, None) == (info, parts),
        history_turn(info, messages) matches Some(turn) ==> reply::answer_source(
            prompt,
            Some(messages),
        ) == turn,
        history_turn(info, messages) is None ==> reply::answer_source(prompt, Some(messages)) == (
            info,
            parts,
        ),
{
}

proof fn lemma_part_of_message(turn: Seq<JsonView>, k: int, parts: Seq<JsonView>, i: int) -> (p: int)
    requires
        0 <= k < turn.len(),
        turn[k].get("parts"@) == Some(JsonView::Arr(parts)),
        0 <= i < parts.len(),
    ensures
        0 <= p < parts_of(turn).len(),
        parts_of(turn)[p] == parts[i],
    decreases turn.len(),
{
    let before = parts_of(turn.drop_last());
    if k == turn.len() - 1 {
        before.len() + i
    } else {
        assert(turn.drop_last()[k] == turn[k]);
        lemma_part_of_message(turn.drop_last(), k, parts, i)
    }
}

proof fn lemma_assistant_is_there(rest: Seq<JsonView>, i: int) -> (p: int)
    requires
        0 <= i < rest.len(),
        role_is(rest[i], "assistant"@),
    ensures
        0 <= p < assistants(rest).len(),
        assistants(rest)[p] == rest[i],
    decreases rest.len(),
{
    if i == rest.len() - 1 {
        assistants(rest).len() - 1
    } else {
        lemma_assistant_is_there(rest.drop_last(), i)
    }
}

proof fn lemma_block_of_part(parts: Seq<JsonView>, p: int) -> (b: int)
    requires
        0 <= p < parts.len(),
        reply_blocks(parts[p]).len() > 0,
    ensures
        0 <= b < all_reply_blocks(parts).len(),
        all_reply_blocks(parts)[b] == reply_blocks(parts[p])[0],
    decreases parts.len(),
{
    let before = all_reply_blocks(parts.drop_last());
    if p == parts.len() - 1 {
        before.len() as int
    } else {
        assert(parts.drop_last()[p] == parts[p]);
        lemma_block_of_part(parts.drop_last(), p)
    }
}

/// Every tool call in an assistant message of the turn is shown in the answer
/// to the prompt, and the answer stops for its tools.
pub proof fn law_tools_of_the_turn_are_shown(
    prompt: JsonView,
    info: JsonView,
    list: Seq<JsonView>,
    parent: Seq<char>,
    at: int,
    j: int,
    parts: Seq<JsonView>,
    i: int,
    call_id: Seq<char>,
    tool: Seq<char>,
)
    requires
        prompt.get("info"@) == Some(info),
        info.get("parentID"@) == Some(JsonView::Str(parent)),
        0 <= at < j < list.len(),
        id_is(list[at], parent),
        forall|k: int| 0 <= k < at ==> !id_is(#[trigger] list[k], parent),
        role_is(list[j], "assistant"@),
        list[j].get("parts"@) == Some(JsonView::Arr(parts)),
        0 <= i < parts.len(),
        parts[i].get("type"@) == Some(JsonView::Str("tool"@)),
        parts[i].get("callID"@) == Some(JsonView::Str(call_id)),
        parts[i].get("tool"@) == Some(JsonView::Str(tool)),
        call_id.len() > 0,
        tool.len() > 0,
    ensures
        ({
            let source = reply::answer_source(prompt, Some(JsonView::Arr(list)));
            let content = reply_content(turn::listed(source.1));
            &&& exists|b: int|
                0 <= b < content.len() && (#[trigger] content[b]).get("type"@) == Some(
                    JsonView::Str("tool_use"@),
                ) && content[b].get("id"@) == Some(JsonView::Str(call_id)) && content[b].get(
                    "name"@,
                ) == Some(JsonView::Str(tool))
            &&& stop_reason(source.0, turn::listed(source.1)) == "tool_use"@
        }),
{
    lemma_after_id(list, parent, at);
    let rest = list.skip(at + 1);
    assert(rest[j - at - 1] == list[j]);
    let k = lemma_assistant_is_there(rest, j - at - 1);
    let turn = assistants(rest);
    let p = lemma_part_of_message(turn, k, parts, i);
    let all = parts_of(turn);
    lemma_assistant_has_info(rest, turn.len() - 1);
    let source = reply::answer_source(prompt, Some(JsonView::Arr(list)));
    assert(source.1 == JsonView::Arr(all));
    law_tool_is_shown_whole(parts[i], call_id, tool);
    let b = lemma_block_of_part(all, p);
    let content = reply_content(all);
    assert(content == all_reply_blocks(all));
    let use_entries = seq![
        ("type"@, JsonView::Str("tool_use"@)),
        ("id"@, JsonView::Str(call_id)),
        ("name"@, JsonView::Str(tool)),
        ("input"@, native_stream::tool_input(parts[i])),
    ];
    lemma_tool_use_block(call_id, tool, native_stream::tool_input(parts[i]));
    lemma_kinds();
    assert(content[b] == tool_use_block(call_id, tool, native_stream::tool_input(parts[i])));
    assert(content[b].get(use_entries[0].0) == Some(use_entries[0].1));
    assert(content[b].get(use_entries[1].0) == Some(use_entries[1].1));
    assert(content[b].get(use_entries[2].0) == Some(use_entries[2].1));
    law_stop_reasons(source.0, all);
}

/// A reply whose parts are no list is one without parts.
pub proof fn law_no_list_is_no_parts(
    id: Seq<char>,
    info: JsonView,
    parts: JsonView,
    model: Seq<char>,
)
    requires
        !(parts is Arr),
    ensures
        anthropic_message(id, info, parts, model) == anthropic_message(
            id,
            info,
            JsonView::Arr(Seq::empty()),
            model,
        ),
{
}

} // verus!
