//! The turn that a message list shows.
//!
//! The message list of a session grows while a turn runs, and on a reused
//! session it holds the turns before it too. The turn is told from them by the
//! ids that the list had before the turn was started.

use crate::json;
use crate::json::{Json, JsonView};
use crate::text::same;
use vstd::hash_set::StringHashSet;
use vstd::prelude::*;
use vstd::string::*;

verus! {

/// A set of message ids.
pub struct MessageIds {
    ids: StringHashSet,
}

impl View for MessageIds {
    type V = Set<Seq<char>>;

    closed spec fn view(&self) -> Set<Seq<char>> {
        self.ids@
    }
}

impl MessageIds {
    /// The empty set.
    pub fn new() -> (r: Self)
        ensures
            r@ == Set::<Seq<char>>::empty(),
    {
        MessageIds { ids: StringHashSet::new() }
    }

    /// Adds an id.
    pub fn insert(&mut self, id: &str)
        ensures
            final(self)@ == old(self)@.insert(id@),
    {
        self.ids.insert(id.to_owned());
    }

    /// Whether the set holds an id.
    pub fn contains(&self, id: &str) -> (r: bool)
        ensures
            r == self@.contains(id@),
    {
        self.ids.contains(id)
    }
}

/// The ids of the messages of a list.
pub open spec fn ids_of(messages: Seq<JsonView>) -> Set<Seq<char>>
    decreases messages.len(),
{
    if messages.len() == 0 {
        Set::empty()
    } else {
        match messages.last().str_in("info"@, "id"@) {
            Some(id) => ids_of(messages.drop_last()).insert(id),
            None => ids_of(messages.drop_last()),
        }
    }
}

/// The messages of a message list; none where it is not an array.
pub open spec fn listed(messages: JsonView) -> Seq<JsonView> {
    match messages {
        JsonView::Arr(items) => items,
        _ => Seq::empty(),
    }
}

/// The ids of the messages of a message list.
pub fn message_id_set(messages: &Json) -> (r: MessageIds)
    ensures
        r@ == ids_of(listed(messages@)),
{
    let mut ids = MessageIds::new();
    if let Some(items) = messages.as_array() {
        let ghost all = json::model_items(items@);
        let mut i: usize = 0;
        assert(ids@ =~= ids_of(all.take(0)));
        while i < items.len()
            invariant
                i <= items@.len(),
                all == json::model_items(items@),
                ids@ == ids_of(all.take(i as int)),
            decreases items@.len() - i,
        {
            assert(all.take(i + 1).drop_last() =~= all.take(i as int));
            assert(all.take(i + 1).last() == items@[i as int]@);
            if let Some(id) = items[i].str_in("info", "id") {
                ids.insert(id);
            }
            i += 1;
        }
        assert(all.take(all.len() as int) =~= all);
    }
    ids
}

/// Whether a message has an id that is not among `baseline`.
pub open spec fn is_new(message: JsonView, baseline: Set<Seq<char>>) -> bool {
    match message.str_in("info"@, "id"@) {
        Some(id) => !baseline.contains(id),
        None => false,
    }
}

/// Whether a message has the role `role`.
pub open spec fn has_role(message: JsonView, role: Seq<char>) -> bool {
    message.str_in("info"@, "role"@) == Some(role)
}

/// Where the first new user message stands.
pub open spec fn first_new_user(messages: Seq<JsonView>, baseline: Set<Seq<char>>) -> Option<nat>
    decreases messages.len(),
{
    if messages.len() == 0 {
        None
    } else {
        match first_new_user(messages.drop_last(), baseline) {
            Some(i) => Some(i),
            None => if is_new(messages.last(), baseline) && has_role(messages.last(), "user"@) {
                Some((messages.len() - 1) as nat)
            } else {
                None
            },
        }
    }
}

/// Where the last user message stands.
pub open spec fn last_user(messages: Seq<JsonView>) -> Option<nat>
    decreases messages.len(),
{
    if messages.len() == 0 {
        None
    } else if has_role(messages.last(), "user"@) {
        Some((messages.len() - 1) as nat)
    } else {
        last_user(messages.drop_last())
    }
}

/// The user message that a turn answers: the first new one, and without a new
/// one the last.
pub open spec fn turn_anchor(messages: Seq<JsonView>, baseline: Set<Seq<char>>) -> Option<nat> {
    match first_new_user(messages, baseline) {
        Some(i) => Some(i),
        None => last_user(messages),
    }
}

/// The new assistant messages among `messages`, in order.
pub open spec fn replies(messages: Seq<JsonView>, baseline: Set<Seq<char>>) -> Seq<JsonView>
    decreases messages.len(),
{
    if messages.len() == 0 {
        Seq::empty()
    } else {
        let before = replies(messages.drop_last(), baseline);
        if is_new(messages.last(), baseline) && has_role(messages.last(), "assistant"@) {
            before.push(messages.last())
        } else {
            before
        }
    }
}

/// The messages of the turn: the new assistant messages after its user message.
pub open spec fn turn_messages(messages: JsonView, baseline: Set<Seq<char>>) -> Seq<JsonView> {
    match turn_anchor(listed(messages), baseline) {
        Some(i) => replies(listed(messages).skip(i as int + 1), baseline),
        None => Seq::empty(),
    }
}

/// The parts of a message.
pub open spec fn message_parts(message: JsonView) -> Seq<JsonView> {
    match message.arr_at("parts"@) {
        Some(parts) => parts,
        None => Seq::empty(),
    }
}

/// The parts of a list of messages, one message after another.
pub open spec fn parts_of(messages: Seq<JsonView>) -> Seq<JsonView>
    decreases messages.len(),
{
    if messages.len() == 0 {
        Seq::empty()
    } else {
        parts_of(messages.drop_last()) + message_parts(messages.last())
    }
}

/// The info of the last of a list of messages.
pub open spec fn last_info(messages: Seq<JsonView>) -> Option<JsonView> {
    if messages.len() == 0 {
        None
    } else {
        messages.last().get("info"@)
    }
}

/// Whether an info says that its message is finished.
pub open spec fn finished(info: Option<JsonView>) -> bool {
    match info {
        Some(info) => match info.get("finish"@) {
            Some(finish) => finish != JsonView::Null,
            None => false,
        },
        None => false,
    }
}

fn message_is_new(message: &Json, baseline: &MessageIds) -> (r: bool)
    ensures
        r == is_new(message@, baseline@),
{
    match message.str_in("info", "id") {
        Some(id) => !baseline.contains(id),
        None => false,
    }
}

fn message_has_role(message: &Json, role: &str) -> (r: bool)
    ensures
        r == has_role(message@, role@),
{
    match message.str_in("info", "role") {
        Some(s) => same(s, role),
        None => false,
    }
}

fn find_anchor(messages: &Vec<Json>, baseline: &MessageIds) -> (r: Option<usize>)
    ensures
        match r {
            Some(i) => i < messages@.len() && turn_anchor(
                json::model_items(messages@),
                baseline@,
            ) == Some(i as nat),
            None => turn_anchor(json::model_items(messages@), baseline@) is None,
        },
{
    let ghost all = json::model_items(messages@);
    let mut found: Option<usize> = None;
    let mut last: Option<usize> = None;
    let mut i: usize = 0;
    while i < messages.len()
        invariant
            i <= messages@.len(),
            all == json::model_items(messages@),
            match found {
                Some(k) => k < messages@.len() && first_new_user(all.take(i as int), baseline@)
                    == Some(k as nat),
                None => first_new_user(all.take(i as int), baseline@) is None,
            },
            match last {
                Some(k) => k < messages@.len() && last_user(all.take(i as int)) == Some(k as nat),
                None => last_user(all.take(i as int)) is None,
            },
        decreases messages@.len() - i,
    {
        assert(all.take(i + 1).drop_last() =~= all.take(i as int));
        assert(all.take(i + 1).last() == messages@[i as int]@);
        if message_has_role(&messages[i], "user") {
            if found.is_none() && message_is_new(&messages[i], baseline) {
                found = Some(i);
            }
            last = Some(i);
        }
        i += 1;
    }
    assert(all.take(all.len() as int) =~= all);
    match found {
        Some(k) => Some(k),
        None => last,
    }
}

/// Takes the turn out of a message list: its parts, the info of its last
/// message, and whether that message is finished.
///
/// The turn is made of the assistant messages that are new, which is to say
/// not among `baseline`, and that come after the first new user message (or,
/// without a new one, after the last user message). On a reused session the
/// replies of earlier turns stand in the list too, and contribute nothing.
pub fn collect_turn_parts(messages: &Json, baseline: &MessageIds) -> (r: (
    Vec<Json>,
    Option<Json>,
    bool,
))
    ensures
        json::model_items(r.0@) == parts_of(turn_messages(messages@, baseline@)),
        json::opt_view(r.1) == last_info(turn_messages(messages@, baseline@)),
        r.2 == finished(last_info(turn_messages(messages@, baseline@))),
{
    let mut parts: Vec<Json> = Vec::new();
    let mut info: Option<Json> = None;
    assert(json::model_items(parts@) =~= parts_of(Seq::empty()));
    let items = match messages.as_array() {
        Some(items) => items,
        None => {
            return (parts, None, false);
        },
    };
    let anchor: usize = match find_anchor(items, baseline) {
        Some(i) => i,
        None => {
            return (parts, None, false);
        },
    };
    assert(anchor < items.len());
    let ghost all = json::model_items(items@).skip(anchor + 1);
    let mut i: usize = anchor + 1;
    assert(all.take(0) =~= Seq::empty());
    while i < items.len()
        invariant
            anchor + 1 <= i <= items@.len(),
            all == json::model_items(items@).skip(anchor + 1),
            json::model_items(parts@) == parts_of(
                replies(all.take(i - anchor - 1), baseline@),
            ),
            json::opt_view(info) == last_info(replies(all.take(i - anchor - 1), baseline@)),
        decreases items@.len() - i,
    {
        let m = &items[i];
        let ghost n = i - anchor - 1;
        assert(all.take(n + 1).drop_last() =~= all.take(n));
        assert(all.take(n + 1).last() == m@);
        if message_is_new(m, baseline) && message_has_role(m, "assistant") {
            let ghost before = replies(all.take(n), baseline@);
            assert(before.push(m@).drop_last() =~= before);
            info = match m.get("info") {
                Some(v) => Some(v.clone()),
                None => None,
            };
            assert(json::model_items(parts@) + Seq::empty() =~= json::model_items(parts@));
            if let Some(more) = m.arr_at("parts") {
                json::extend_copies(&mut parts, more);
            }
        }
        i += 1;
    }
    assert(all.take(all.len() as int) =~= all);
    let terminal = match &info {
        Some(v) => match v.get("finish") {
            Some(finish) => !finish.is_null(),
            None => false,
        },
        None => false,
    };
    (parts, info, terminal)
}

proof fn lemma_ids_hold(messages: Seq<JsonView>, i: int)
    requires
        0 <= i < messages.len(),
    ensures
        messages[i].str_in("info"@, "id"@) matches Some(id) ==> ids_of(messages).contains(id),
    decreases messages.len(),
{
    if i < messages.len() - 1 {
        lemma_ids_hold(messages.drop_last(), i);
    }
}

proof fn lemma_no_new_replies(messages: Seq<JsonView>, baseline: Set<Seq<char>>)
    requires
        forall|i: int| 0 <= i < messages.len() ==> !is_new(#[trigger] messages[i], baseline),
    ensures
        replies(messages, baseline) == Seq::<JsonView>::empty(),
        first_new_user(messages, baseline) is None,
    decreases messages.len(),
{
    if messages.len() > 0 {
        let start = messages.drop_last();
        assert forall|i: int| 0 <= i < start.len() implies !is_new(
            #[trigger] start[i],
            baseline,
        ) by {
            assert(start[i] == messages[i]);
        }
        lemma_no_new_replies(start, baseline);
        assert(!is_new(messages[messages.len() - 1], baseline));
    }
}

/// A list that has no message beyond the baseline shows nothing of the turn,
/// and does not end it: an early reading never shows the reply of an earlier
/// turn.
pub proof fn law_old_messages_show_no_turn(messages: JsonView, baseline: Set<Seq<char>>)
    requires
        ids_of(listed(messages)).subset_of(baseline),
    ensures
        parts_of(turn_messages(messages, baseline)) == Seq::<JsonView>::empty(),
        last_info(turn_messages(messages, baseline)) is None,
        !finished(last_info(turn_messages(messages, baseline))),
{
    let list = listed(messages);
    match turn_anchor(list, baseline) {
        Some(anchor) => {
            lemma_anchor_in_range(list, baseline);
            let rest = list.skip(anchor as int + 1);
            assert forall|i: int| 0 <= i < rest.len() implies !is_new(
                #[trigger] rest[i],
                baseline,
            ) by {
                lemma_ids_hold(list, anchor as int + 1 + i);
                assert(rest[i] == list[anchor as int + 1 + i]);
            }
            lemma_no_new_replies(rest, baseline);
        },
        None => {},
    }
}

proof fn lemma_anchor_in_range(messages: Seq<JsonView>, baseline: Set<Seq<char>>)
    ensures
        turn_anchor(messages, baseline) matches Some(i) ==> i < messages.len(),
        first_new_user(messages, baseline) matches Some(i) ==> i < messages.len(),
        last_user(messages) matches Some(i) ==> i < messages.len(),
    decreases messages.len(),
{
    if messages.len() > 0 {
        lemma_anchor_in_range(messages.drop_last(), baseline);
    }
}

proof fn lemma_replies_are_new(messages: Seq<JsonView>, baseline: Set<Seq<char>>, i: int)
    requires
        0 <= i < replies(messages, baseline).len(),
    ensures
        is_new(replies(messages, baseline)[i], baseline),
        has_role(replies(messages, baseline)[i], "assistant"@),
        messages.contains(replies(messages, baseline)[i]),
    decreases messages.len(),
{
    if messages.len() > 0 {
        let start = messages.drop_last();
        let before = replies(start, baseline);
        if i < before.len() {
            lemma_replies_are_new(start, baseline, i);
            let k = choose|k: int| 0 <= k < start.len() && #[trigger] start[k] == before[i];
            assert(messages[k] == before[i]);
        } else {
            assert(messages[messages.len() - 1] == messages.last());
        }
    }
}

/// Only new assistant messages of the list are part of a turn.
pub proof fn law_turn_is_new(messages: JsonView, baseline: Set<Seq<char>>, i: int)
    requires
        0 <= i < turn_messages(messages, baseline).len(),
    ensures
        is_new(turn_messages(messages, baseline)[i], baseline),
        has_role(turn_messages(messages, baseline)[i], "assistant"@),
        listed(messages).contains(turn_messages(messages, baseline)[i]),
{
    let list = listed(messages);
    let anchor = turn_anchor(list, baseline)->Some_0;
    lemma_anchor_in_range(list, baseline);
    let rest = list.skip(anchor as int + 1);
    lemma_replies_are_new(rest, baseline, i);
    let m = replies(rest, baseline)[i];
    let k = choose|k: int| 0 <= k < rest.len() && #[trigger] rest[k] == m;
    assert(list[anchor as int + 1 + k] == m);
}

proof fn lemma_first_new_user_after(
    old_messages: Seq<JsonView>,
    messages: Seq<JsonView>,
    baseline: Set<Seq<char>>,
)
    requires
        forall|i: int| 0 <= i < old_messages.len() ==> !is_new(#[trigger] old_messages[i], baseline),
    ensures
        first_new_user(old_messages + messages, baseline) == (match first_new_user(
            messages,
            baseline,
        ) {
            Some(i) => Some(old_messages.len() + i),
            None => None,
        }),
    decreases messages.len(),
{
    if messages.len() == 0 {
        assert(old_messages + messages =~= old_messages);
        lemma_no_new_replies(old_messages, baseline);
    } else {
        assert((old_messages + messages).drop_last() =~= old_messages + messages.drop_last());
        assert((old_messages + messages).last() == messages.last());
        lemma_first_new_user_after(old_messages, messages.drop_last(), baseline);
    }
}

/// What a reused session holds from before the turn makes no difference to
/// the turn, once its user message has landed.
pub proof fn law_history_makes_no_difference(
    old_messages: Seq<JsonView>,
    messages: Seq<JsonView>,
    baseline: Set<Seq<char>>,
)
    requires
        forall|i: int| 0 <= i < old_messages.len() ==> !is_new(#[trigger] old_messages[i], baseline),
        first_new_user(messages, baseline) is Some,
    ensures
        turn_messages(JsonView::Arr(old_messages + messages), baseline) == turn_messages(
            JsonView::Arr(messages),
            baseline,
        ),
{
    lemma_first_new_user_after(old_messages, messages, baseline);
    let i = first_new_user(messages, baseline)->Some_0;
    lemma_anchor_in_range(messages, baseline);
    assert((old_messages + messages).skip((old_messages.len() + i) as int + 1) =~= messages.skip(
        i as int + 1,
    ));
}

} // verus!
