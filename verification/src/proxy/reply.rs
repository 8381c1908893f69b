//! The answer to a unary native prompt.
//!
//! The answer to a prompt carries only the last message of its turn, while
//! tools run in the messages before it. The parts of the whole turn are read
//! from the message list of the session, and the answer itself is used where
//! that list does not show the turn.

use crate::json;
use crate::json::{extend_copies, Json, JsonView};
use crate::text::same;
use crate::transform::native;
use crate::transform::native::native_response_to_anthropic;
use crate::transform::turn;
use vstd::prelude::*;

verus! {

/// The member `key`, null where there is none.
pub open spec fn member_or_null(v: JsonView, key: Seq<char>) -> JsonView {
    match v.get(key) {
        Some(m) => m,
        None => JsonView::Null,
    }
}

fn copy_member(v: &Json, key: &str) -> (r: Json)
    ensures
        r@ == member_or_null(v@, key@),
{
    match v.get(key) {
        Some(m) => m.clone(),
        None => Json::Null,
    }
}

/// Whether a message is the one with the id `id`.
pub open spec fn has_id(message: JsonView, id: Seq<char>) -> bool {
    match message.get("info"@) {
        Some(info) => info.str_or("id"@, ""@) == id,
        None => false,
    }
}

/// The messages after the first one with the id `id`; nothing where there is
/// no such message.
pub open spec fn after_id(messages: Seq<JsonView>, id: Seq<char>) -> Option<Seq<JsonView>>
    decreases messages.len(),
{
    if messages.len() == 0 {
        None
    } else if has_id(messages[0], id) {
        Some(messages.drop_first())
    } else {
        after_id(messages.drop_first(), id)
    }
}

/// The assistant messages among `messages`, in order.
pub open spec fn assistants(messages: Seq<JsonView>) -> Seq<JsonView>
    decreases messages.len(),
{
    if messages.len() == 0 {
        Seq::empty()
    } else if turn::has_role(messages.last(), "assistant"@) {
        assistants(messages.drop_last()).push(messages.last())
    } else {
        assistants(messages.drop_last())
    }
}

/// The turn that a message list shows for a prompt: the info of its last
/// message and its parts. `prompt_info` is the info of the answer, and names
/// the user message of the turn as its parent. There is none where the list
/// does not have that message, or has no parts after it.
pub open spec fn history_turn(prompt_info: JsonView, messages: JsonView) -> Option<
    (JsonView, JsonView),
> {
    match prompt_info.str_at("parentID"@) {
        Some(parent) => match after_id(turn::listed(messages), parent) {
            Some(rest) => {
                let turn = assistants(rest);
                let parts = turn::parts_of(turn);
                if parts.len() == 0 {
                    None
                } else {
                    Some(
                        (
                            match turn::last_info(turn) {
                                Some(info) => info,
                                None => prompt_info,
                            },
                            JsonView::Arr(parts),
                        ),
                    )
                }
            },
            None => None,
        },
        None => None,
    }
}

/// What an optional turn holds.
pub open spec fn turn_view(r: Option<(Json, Json)>) -> Option<(JsonView, JsonView)> {
    match r {
        Some(t) => Some((t.0@, t.1@)),
        None => None,
    }
}

fn message_has_id(message: &Json, id: &str) -> (r: bool)
    ensures
        r == has_id(message@, id@),
{
    match message.get("info") {
        Some(info) => same(info.str_or("id", ""), id),
        None => false,
    }
}

/// Whether the turn of an answer can be looked up in the message list: the
/// answer names the user message that it replies to.
pub fn names_its_prompt(prompt_info: &Json) -> (r: bool)
    ensures
        r == (prompt_info@.str_at("parentID"@) is Some),
{
    prompt_info.str_at("parentID").is_some()
}

/// Takes the turn of a prompt out of a message list.
pub fn turn_parts_via_history(prompt_info: &Json, messages: &Json) -> (r: Option<(Json, Json)>)
    ensures
        turn_view(r) == history_turn(prompt_info@, messages@),
{
    broadcast use {json::lemma_model_arr, json::lemma_model_obj};

    let parent = match prompt_info.str_at("parentID") {
        Some(id) => id,
        None => {
            return None;
        },
    };
    let items = match messages.as_array() {
        Some(items) => items,
        None => {
            return None;
        },
    };
    let ghost all = json::model_items(items@);
    let mut start: usize = 0;
    assert(all.skip(0) =~= all);
    while start < items.len() && !message_has_id(&items[start], parent)
        invariant
            start <= items@.len(),
            all == json::model_items(items@),
            after_id(all, parent@) == after_id(all.skip(start as int), parent@),
        decreases items@.len() - start,
    {
        assert(all.skip(start as int)[0] == items@[start as int]@);
        assert(all.skip(start as int).drop_first() =~= all.skip(start + 1));
        start += 1;
    }
    if start == items.len() {
        assert(all.skip(start as int) =~= Seq::empty());
        return None;
    }
    assert(all.skip(start as int)[0] == items@[start as int]@);
    let ghost rest = all.skip(start + 1);
    assert(all.skip(start as int).drop_first() =~= rest);
    let mut parts: Vec<Json> = Vec::new();
    let mut info: Option<Json> = None;
    let mut i: usize = start + 1;
    assert(rest.take(0) =~= Seq::empty());
    assert(json::model_items(parts@) =~= turn::parts_of(assistants(rest.take(0))));
    while i < items.len()
        invariant
            start + 1 <= i <= items@.len(),
            all == json::model_items(items@),
            rest == all.skip(start + 1),
            json::model_items(parts@) == turn::parts_of(
                assistants(rest.take(i - start - 1)),
            ),
            json::opt_view(info) == turn::last_info(
                assistants(rest.take(i - start - 1)),
            ),
        decreases items@.len() - i,
    {
        let m = &items[i];
        let ghost n = i - start - 1;
        assert(rest.take(n + 1).drop_last() =~= rest.take(n));
        assert(rest.take(n + 1).last() == m@);
        let assistant = match m.str_in("info", "role") {
            Some(role) => same(role, "assistant"),
            None => false,
        };
        if assistant {
            let ghost before = assistants(rest.take(n));
            assert(before.push(m@).drop_last() =~= before);
            info = match m.get("info") {
                Some(v) => Some(v.clone()),
                None => None,
            };
            assert(json::model_items(parts@) + Seq::empty() =~= json::model_items(parts@));
            if let Some(more) = m.arr_at("parts") {
                extend_copies(&mut parts, more);
            }
        }
        i += 1;
    }
    assert(rest.take(rest.len() as int) =~= rest);
    if parts.len() == 0 {
        assert(json::model_items(parts@).len() == 0);
        return None;
    }
    assert(json::model_items(parts@).len() > 0);
    let last = match info {
        Some(v) => v,
        None => prompt_info.clone(),
    };
    Some((last, Json::Arr(parts)))
}

/// The info and the parts that an answer is made from: those of the whole
/// turn where the message list `history` was read and shows it, and those of
/// the answer to the prompt otherwise.
pub open spec fn answer_source(prompt: JsonView, history: Option<JsonView>) -> (
    JsonView,
    JsonView,
) {
    let info = member_or_null(prompt, "info"@);
    let own = (info, member_or_null(prompt, "parts"@));
    match history {
        Some(messages) => match history_turn(info, messages) {
            Some(turn) => turn,
            None => own,
        },
        None => own,
    }
}

/// Finds the info and the parts that an answer is made from.
pub fn merge_turn(prompt: &Json, history: Option<&Json>) -> (r: (Json, Json))
    ensures
        (r.0@, r.1@) == answer_source(prompt@, json::opt_model(history)),
{
    let info = copy_member(prompt, "info");
    if let Some(messages) = history {
        if let Some(turn) = turn_parts_via_history(&info, messages) {
            return turn;
        }
    }
    (info, copy_member(prompt, "parts"))
}

/// The info of the answer to a prompt.
pub fn prompt_info(prompt: &Json) -> (r: Json)
    ensures
        r@ == member_or_null(prompt@, "info"@),
{
    copy_member(prompt, "info")
}

/// Makes the Anthropic message for the answer to a prompt.
pub fn native_answer(prompt: &Json, history: Option<&Json>, model: &str) -> (r: Json)
    ensures
        exists|secs: u64, nanos: u32|
            nanos < 1_000_000_000 && r@ == native::anthropic_message(
                "msg_"@ + #[trigger] native::moment_id(secs, nanos),
                answer_source(prompt@, json::opt_model(history)).0,
                answer_source(prompt@, json::opt_model(history)).1,
                model@,
            ),
{
    let (info, parts) = merge_turn(prompt, history);
    native_response_to_anthropic(&info, &parts, model)
}

} // verus!
