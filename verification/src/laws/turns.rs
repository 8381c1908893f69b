//! Laws of the turn that a message list shows.

use crate::json::JsonView;
use crate::transform::turn;
use crate::transform::turn::{finished, first_new_user, has_role, ids_of, is_new, last_info, last_user};
use crate::transform::turn::{listed, parts_of, replies, turn_messages};
use vstd::prelude::*;

verus! {

/// Whether a message has an id that is not among `baseline`.
pub open spec fn is_fresh(m: JsonView, baseline: Set<Seq<char>>) -> bool {
    m.get_in("info"@, "id"@) matches Some(JsonView::Str(id)) && !baseline.contains(id)
}

/// Whether a message has the role `role`.
pub open spec fn role_is(m: JsonView, role: Seq<char>) -> bool {
    m.get_in("info"@, "role"@) == Some(JsonView::Str(role))
}

/// Whether a message is a new reply.
pub open spec fn is_reply(baseline: Set<Seq<char>>) -> spec_fn(JsonView) -> bool {
    |m: JsonView| is_fresh(m, baseline) && role_is(m, "assistant"@)
}

proof fn lemma_replies_filter(messages: Seq<JsonView>, baseline: Set<Seq<char>>)
    ensures
        replies(messages, baseline) == messages.filter(is_reply(baseline)),
    decreases messages.len(),
{
    reveal(Seq::filter);
    if messages.len() > 0 {
        lemma_replies_filter(messages.drop_last(), baseline);
        let m = messages.last();
        assert(is_reply(baseline)(m) == (is_new(m, baseline) && has_role(m, "assistant"@)));
    } else {
        assert(messages =~= Seq::empty());
    }
}

proof fn lemma_first_new_user(list: Seq<JsonView>, baseline: Set<Seq<char>>, at: int)
    requires
        0 <= at < list.len(),
        is_fresh(list[at], baseline),
        role_is(list[at], "user"@),
        forall|j: int|
            0 <= j < at ==> !(is_fresh(#[trigger] list[j], baseline) && role_is(list[j], "user"@)),
    ensures
        first_new_user(list, baseline) == Some(at as nat),
    decreases list.len(),
{
    let start = list.drop_last();
    if at == list.len() - 1 {
        assert forall|j: int| 0 <= j < start.len() implies !(is_fresh(#[trigger] start[j], baseline)
            && role_is(start[j], "user"@)) by {
            assert(start[j] == list[j]);
        }
        lemma_no_new_user(start, baseline);
    } else {
        assert(start[at] == list[at]);
        assert forall|j: int| 0 <= j < at implies !(is_fresh(#[trigger] start[j], baseline)
            && role_is(start[j], "user"@)) by {
            assert(start[j] == list[j]);
        }
        lemma_first_new_user(start, baseline, at);
    }
}

proof fn lemma_no_new_user(list: Seq<JsonView>, baseline: Set<Seq<char>>)
    requires
        forall|j: int|
            0 <= j < list.len() ==> !(is_fresh(#[trigger] list[j], baseline) && role_is(
                list[j],
                "user"@,
            )),
    ensures
        first_new_user(list, baseline) is None,
    decreases list.len(),
{
    if list.len() > 0 {
        let start = list.drop_last();
        assert forall|j: int| 0 <= j < start.len() implies !(is_fresh(#[trigger] start[j], baseline)
            && role_is(start[j], "user"@)) by {
            assert(start[j] == list[j]);
        }
        lemma_no_new_user(start, baseline);
        let m = list[list.len() - 1];
        assert(!(is_fresh(m, baseline) && role_is(m, "user"@)));
    }
}

proof fn lemma_last_user(list: Seq<JsonView>, at: int)
    requires
        0 <= at < list.len(),
        role_is(list[at], "user"@),
        forall|j: int| at < j < list.len() ==> !role_is(#[trigger] list[j], "user"@),
    ensures
        last_user(list) == Some(at as nat),
    decreases list.len(),
{
    if at < list.len() - 1 {
        let start = list.drop_last();
        assert(!role_is(list[list.len() - 1], "user"@));
        assert(start[at] == list[at]);
        assert forall|j: int| at < j < start.len() implies !role_is(
            #[trigger] start[j],
            "user"@,
        ) by {
            assert(start[j] == list[j]);
        }
        lemma_last_user(start, at);
    }
}

proof fn lemma_no_user(list: Seq<JsonView>, baseline: Set<Seq<char>>)
    requires
        forall|j: int| 0 <= j < list.len() ==> !role_is(#[trigger] list[j], "user"@),
    ensures
        last_user(list) is None,
    decreases list.len(),
{
    if list.len() > 0 {
        let start = list.drop_last();
        assert(!role_is(list[list.len() - 1], "user"@));
        assert forall|j: int| 0 <= j < start.len() implies !role_is(
            #[trigger] start[j],
            "user"@,
        ) by {
            assert(start[j] == list[j]);
        }
        lemma_no_user(start, baseline);
    }
}

/// After the first new user message, the turn is made of all the new assistant
/// messages that follow it, in the order of the list.
pub proof fn law_turn_has_all_replies(list: Seq<JsonView>, baseline: Set<Seq<char>>, at: int)
    requires
        0 <= at < list.len(),
        is_fresh(list[at], baseline),
        role_is(list[at], "user"@),
        forall|j: int|
            0 <= j < at ==> !(is_fresh(#[trigger] list[j], baseline) && role_is(list[j], "user"@)),
    ensures
        turn_messages(JsonView::Arr(list), baseline) == list.skip(at + 1).filter(
            is_reply(baseline),
        ),
{
    lemma_first_new_user(list, baseline, at);
    lemma_replies_filter(list.skip(at + 1), baseline);
}

/// Without a new user message, the turn is made of all the new assistant
/// messages after the last user message, in the order of the list.
pub proof fn law_turn_without_new_prompt(list: Seq<JsonView>, baseline: Set<Seq<char>>, at: int)
    requires
        0 <= at < list.len(),
        role_is(list[at], "user"@),
        forall|j: int| at < j < list.len() ==> !role_is(#[trigger] list[j], "user"@),
        forall|j: int|
            0 <= j < list.len() ==> !(is_fresh(#[trigger] list[j], baseline) && role_is(
                list[j],
                "user"@,
            )),
    ensures
        turn_messages(JsonView::Arr(list), baseline) == list.skip(at + 1).filter(
            is_reply(baseline),
        ),
{
    lemma_no_new_user(list, baseline);
    lemma_last_user(list, at);
    lemma_replies_filter(list.skip(at + 1), baseline);
}

/// A list without a user message shows no turn, and neither does a value that
/// is no list.
pub proof fn law_no_turn_without_user(messages: JsonView, baseline: Set<Seq<char>>)
    requires
        messages matches JsonView::Arr(list) ==> forall|j: int|
            0 <= j < list.len() ==> !role_is(#[trigger] list[j], "user"@),
    ensures
        turn_messages(messages, baseline) == Seq::<JsonView>::empty(),
{
    if let JsonView::Arr(list) = messages {
        assert forall|j: int| 0 <= j < list.len() implies !(is_fresh(#[trigger] list[j], baseline)
            && role_is(list[j], "user"@)) by {
            assert(!role_is(list[j], "user"@));
        }
        lemma_no_new_user(list, baseline);
        lemma_no_user(list, baseline);
    }
}

/// Every new assistant message after the first new user message is in the
/// turn, and of two such messages the one that comes first in the list comes
/// first in the turn.
pub proof fn law_turn_is_complete(
    list: Seq<JsonView>,
    baseline: Set<Seq<char>>,
    at: int,
    i: int,
    j: int,
)
    requires
        0 <= at < i < j < list.len(),
        is_fresh(list[at], baseline),
        role_is(list[at], "user"@),
        forall|k: int|
            0 <= k < at ==> !(is_fresh(#[trigger] list[k], baseline) && role_is(list[k], "user"@)),
        is_fresh(list[i], baseline),
        role_is(list[i], "assistant"@),
        is_fresh(list[j], baseline),
        role_is(list[j], "assistant"@),
    ensures
        exists|p: int, q: int|
            0 <= p < q < turn_messages(JsonView::Arr(list), baseline).len()
                && #[trigger] turn_messages(JsonView::Arr(list), baseline)[p] == list[i]
                && #[trigger] turn_messages(JsonView::Arr(list), baseline)[q] == list[j],
{
    lemma_first_new_user(list, baseline, at);
    let rest = list.skip(at + 1);
    assert(rest[i - at - 1] == list[i]);
    assert(rest[j - at - 1] == list[j]);
    let (p, q) = lemma_replies_in_order(rest, baseline, i - at - 1, j - at - 1);
    let turn = turn_messages(JsonView::Arr(list), baseline);
    assert(turn[p] == list[i] && turn[q] == list[j]);
}

proof fn lemma_reply_is_there(rest: Seq<JsonView>, baseline: Set<Seq<char>>, i: int) -> (p: int)
    requires
        0 <= i < rest.len(),
        is_fresh(rest[i], baseline),
        role_is(rest[i], "assistant"@),
    ensures
        0 <= p < replies(rest, baseline).len(),
        replies(rest, baseline)[p] == rest[i],
    decreases rest.len(),
{
    if i == rest.len() - 1 {
        replies(rest, baseline).len() - 1
    } else {
        lemma_reply_is_there(rest.drop_last(), baseline, i)
    }
}

proof fn lemma_replies_in_order(
    rest: Seq<JsonView>,
    baseline: Set<Seq<char>>,
    i: int,
    j: int,
) -> (r: (int, int))
    requires
        0 <= i < j < rest.len(),
        is_fresh(rest[i], baseline),
        role_is(rest[i], "assistant"@),
        is_fresh(rest[j], baseline),
        role_is(rest[j], "assistant"@),
    ensures
        0 <= r.0 < r.1 < replies(rest, baseline).len(),
        replies(rest, baseline)[r.0] == rest[i],
        replies(rest, baseline)[r.1] == rest[j],
    decreases rest.len(),
{
    if j == rest.len() - 1 {
        let p = lemma_reply_is_there(rest.drop_last(), baseline, i);
        (p, replies(rest, baseline).len() - 1)
    } else {
        lemma_replies_in_order(rest.drop_last(), baseline, i, j)
    }
}

/// The parts of a turn are all the parts of its messages, message by message;
/// a message without a list of parts has none.
pub proof fn law_parts_add_up(a: Seq<JsonView>, b: Seq<JsonView>, m: JsonView)
    ensures
        parts_of(a + b) == parts_of(a) + parts_of(b),
        parts_of(Seq::<JsonView>::empty()) == Seq::<JsonView>::empty(),
        m.get("parts"@) matches Some(JsonView::Arr(parts)) ==> parts_of(seq![m]) == parts,
        !(m.get("parts"@) matches Some(JsonView::Arr(_))) ==> parts_of(seq![m]) == Seq::<
            JsonView,
        >::empty(),
    decreases b.len(),
{
    assert(seq![m].drop_last() =~= Seq::empty());
    assert(seq![m].last() == m);
    assert(parts_of(seq![m].drop_last()) =~= Seq::empty());
    assert(parts_of(seq![m]) =~= turn::message_parts(m));
    if b.len() == 0 {
        assert(a + b =~= a);
        assert(parts_of(a) + parts_of(b) =~= parts_of(a));
    } else {
        assert((a + b).drop_last() =~= a + b.drop_last());
        assert((a + b).last() == b.last());
        law_parts_add_up(a, b.drop_last(), m);
        assert(parts_of(a + b) =~= parts_of(a) + parts_of(b));
    }
}

/// The info of a turn is that of its last message, and a turn is finished when
/// that info has a `finish` that is not null.
pub proof fn law_last_message_tells_the_end(turn: Seq<JsonView>)
    ensures
        turn.len() == 0 ==> last_info(turn) is None,
        turn.len() > 0 ==> last_info(turn) == turn[turn.len() - 1].get("info"@),
        finished(last_info(turn)) <==> turn.len() > 0 && turn[turn.len() - 1].get_in(
            "info"@,
            "finish"@,
        ) is Some && turn[turn.len() - 1].get_in("info"@, "finish"@) != Some(JsonView::Null),
{
}

/// The ids of a message list are the ids of its messages: every one of them,
/// and no other.
pub proof fn law_ids_are_those_of_the_messages(messages: JsonView, id: Seq<char>)
    ensures
        messages matches JsonView::Arr(list) ==> (ids_of(listed(messages)).contains(id)
            <==> exists|i: int|
            0 <= i < list.len() && (#[trigger] list[i]).get_in("info"@, "id"@) == Some(
                JsonView::Str(id),
            )),
        !(messages is Arr) ==> !ids_of(listed(messages)).contains(id),
{
    if let JsonView::Arr(list) = messages {
        lemma_ids(list, id);
    }
}

proof fn lemma_ids(list: Seq<JsonView>, id: Seq<char>)
    ensures
        ids_of(list).contains(id) <==> exists|i: int|
            0 <= i < list.len() && (#[trigger] list[i]).get_in("info"@, "id"@) == Some(
                JsonView::Str(id),
            ),
    decreases list.len(),
{
    if list.len() > 0 {
        let start = list.drop_last();
        lemma_ids(start, id);
        let m = list[list.len() - 1];
        if ids_of(start).contains(id) {
            let i = choose|i: int|
                0 <= i < start.len() && (#[trigger] start[i]).get_in("info"@, "id"@) == Some(
                    JsonView::Str(id),
                );
            assert(list[i].get_in("info"@, "id"@) == Some(JsonView::Str(id)));
        }
        if exists|i: int|
            0 <= i < list.len() && (#[trigger] list[i]).get_in("info"@, "id"@) == Some(
                JsonView::Str(id),
            ) {
            let i = choose|i: int|
                0 <= i < list.len() && (#[trigger] list[i]).get_in("info"@, "id"@) == Some(
                    JsonView::Str(id),
                );
            if i < start.len() {
                assert(start[i].get_in("info"@, "id"@) == Some(JsonView::Str(id)));
            }
        }
    }
}

} // verus!
