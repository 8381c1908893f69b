//! Laws of the event stream: what holds of the frames of every stream,
//! whatever the readings of the message list show.

use crate::json;
use crate::json::{JsonView, NumberView};
use crate::json_text;
use crate::json_text::{in_one_line, plain_numbers};
use crate::text;
use crate::transform::native_stream::{closing_delta, opening_message, sse, usage};
use crate::transform::native;
use crate::transform::native_stream::{diff_part, diff_parts, diff_text, diff_tool};
use crate::transform::native_stream::{settled, stops, tool_input};
use crate::transform::native_stream::{Event, TrackerView};
use vstd::prelude::*;

verus! {

/// No two parts share a block, and every block was given out.
pub open spec fn sound(t: TrackerView) -> bool {
    &&& forall|a: Seq<char>| #[trigger] t.blocks.contains_key(a) ==> t.blocks[a] < t.next_index
    &&& forall|a: Seq<char>, b: Seq<char>| #[trigger]
        t.blocks.contains_key(a) && #[trigger] t.blocks.contains_key(b) && t.blocks[a]
            == t.blocks[b] ==> a == b
}

proof fn lemma_part_keeps_sound(t: TrackerView, part: JsonView)
    requires
        sound(t),
    ensures
        sound(diff_part(t, part).0),
{
    let now = diff_part(t, part).0;
    let id = part.str_or("id"@, ""@);
    assert forall|a: Seq<char>| #[trigger] now.blocks.contains_key(a) implies now.blocks[a]
        < now.next_index by {
        if a != id {
            assert(t.blocks.contains_key(a));
        }
    }
    assert forall|a: Seq<char>, b: Seq<char>| #[trigger]
        now.blocks.contains_key(a) && #[trigger] now.blocks.contains_key(b) && now.blocks[a]
            == now.blocks[b] implies a == b by {
        if a != id {
            assert(t.blocks.contains_key(a));
        }
        if b != id {
            assert(t.blocks.contains_key(b));
        }
    }
}

/// Whatever a tracker is shown, no two parts share a block.
pub proof fn law_blocks_are_not_shared(t: TrackerView, parts: Seq<JsonView>)
    requires
        sound(t),
    ensures
        sound(diff_parts(t, parts).0),
    decreases parts.len(),
{
    if parts.len() > 0 {
        law_blocks_are_not_shared(t, parts.drop_last());
        lemma_part_keeps_sound(diff_parts(t, parts.drop_last()).0, parts.last());
    }
}

/// Showing two lists of parts one after the other is showing them at once.
pub proof fn law_readings_add_up(t: TrackerView, a: Seq<JsonView>, b: Seq<JsonView>)
    ensures
        diff_parts(t, a + b).0 == diff_parts(diff_parts(t, a).0, b).0,
        diff_parts(t, a + b).1 == diff_parts(t, a).1 + diff_parts(diff_parts(t, a).0, b).1,
    decreases b.len(),
{
    if b.len() == 0 {
        assert(a + b =~= a);
        assert(diff_parts(t, a).1 + Seq::<Event>::empty() =~= diff_parts(t, a).1);
    } else {
        assert((a + b).drop_last() =~= a + b.drop_last());
        law_readings_add_up(t, a, b.drop_last());
        let mid = diff_parts(t, a);
        let before = diff_parts(mid.0, b.drop_last());
        let last = diff_part(before.0, b.last());
        assert((mid.1 + before.1) + last.1 =~= mid.1 + (before.1 + last.1));
    }
}

/// Whether a part brings nothing new to a tracker.
pub open spec fn absorbed(t: TrackerView, part: JsonView) -> bool {
    diff_part(t, part) == (t, Seq::<Event>::empty())
}

proof fn lemma_absorbed_after(t: TrackerView, part: JsonView)
    ensures
        absorbed(diff_part(t, part).0, part),
{
}

proof fn lemma_absorbed_stays(t: TrackerView, part: JsonView, other: JsonView)
    requires
        absorbed(t, part),
    ensures
        absorbed(diff_part(t, other).0, part),
{
    let id = part.str_or("id"@, ""@);
    let kind = part.str_at("type"@);
    let content = part.str_or("text"@, ""@);
    let now = diff_part(t, other).0;
    if id.len() > 0 && (kind == Some("text"@) || kind == Some("reasoning"@)) && content.len() > 0 {
        let thinking = kind == Some("reasoning"@);
        let d = diff_text(t, id, thinking, content);
        assert(t.blocks.contains_key(id)) by {
            if !t.blocks.contains_key(id) {
                assert(d.1[0] == Event::TextStart { index: t.next_index, thinking });
                assert(d.1.len() > 0);
            }
        }
        assert(content.len() <= t.shown(id)) by {
            if content.len() > t.shown(id) {
                assert(d.1.len() > 0);
            }
        }
        assert(now.blocks.contains_key(id));
        assert(now.shown(id) >= t.shown(id));
    } else if id.len() > 0 && kind == Some("tool"@) {
        let d = diff_tool(t, id, part);
        if !(kind == Some("text"@) || kind == Some("reasoning"@)) {
            if settled(part) && part.str_or("callID"@, ""@).len() > 0 && part.str_or(
                "tool"@,
                ""@,
            ).len() > 0 {
                assert(t.tools.contains(id)) by {
                    if !t.tools.contains(id) {
                        assert(d.1.len() == 2);
                    }
                }
                assert(now.tools.contains(id));
            }
        }
    }
}

proof fn lemma_all_absorbed(t: TrackerView, parts: Seq<JsonView>, i: int)
    requires
        0 <= i < parts.len(),
    ensures
        absorbed(diff_parts(t, parts).0, parts[i]),
    decreases parts.len(),
{
    let before = diff_parts(t, parts.drop_last()).0;
    if i == parts.len() - 1 {
        lemma_absorbed_after(before, parts.last());
    } else {
        lemma_all_absorbed(t, parts.drop_last(), i);
        lemma_absorbed_stays(before, parts.drop_last()[i], parts.last());
    }
}

proof fn lemma_nothing_new(t: TrackerView, parts: Seq<JsonView>)
    requires
        forall|i: int| 0 <= i < parts.len() ==> absorbed(t, #[trigger] parts[i]),
    ensures
        diff_parts(t, parts) == (t, Seq::<Event>::empty()),
    decreases parts.len(),
{
    if parts.len() > 0 {
        let start = parts.drop_last();
        assert forall|i: int| 0 <= i < start.len() implies absorbed(t, #[trigger] start[i]) by {
            assert(start[i] == parts[i]);
        }
        lemma_nothing_new(t, start);
        assert(absorbed(t, parts[parts.len() - 1]));
        assert(Seq::<Event>::empty() + Seq::<Event>::empty() =~= Seq::<Event>::empty());
    }
}

/// Showing the same parts again brings no event and changes nothing: nothing
/// is sent twice.
pub proof fn law_nothing_is_sent_twice(t: TrackerView, parts: Seq<JsonView>)
    ensures
        diff_parts(diff_parts(t, parts).0, parts) == (
            diff_parts(t, parts).0,
            Seq::<Event>::empty(),
        ),
{
    let now = diff_parts(t, parts).0;
    assert forall|i: int| 0 <= i < parts.len() implies absorbed(now, #[trigger] parts[i]) by {
        lemma_all_absorbed(t, parts, i);
    }
    lemma_nothing_new(now, parts);
}

/// The indexes of the blocks that some events open, in order.
pub open spec fn started(events: Seq<Event>) -> Seq<nat>
    decreases events.len(),
{
    if events.len() == 0 {
        Seq::empty()
    } else {
        let before = started(events.drop_last());
        match events.last() {
            Event::TextStart { index, .. } => before.push(index),
            Event::ToolStart { index, .. } => before.push(index),
            _ => before,
        }
    }
}

/// The indexes of the blocks that some events close, in order.
pub open spec fn stopped(events: Seq<Event>) -> Seq<nat>
    decreases events.len(),
{
    if events.len() == 0 {
        Seq::empty()
    } else {
        let before = stopped(events.drop_last());
        match events.last() {
            Event::Stop { index } => before.push(index),
            _ => before,
        }
    }
}

/// The `n` numbers from `from` on.
pub open spec fn numbers(from: nat, n: nat) -> Seq<nat> {
    Seq::new(n, |i: int| from + i as nat)
}

proof fn lemma_started_concat(a: Seq<Event>, b: Seq<Event>)
    ensures
        started(a + b) == started(a) + started(b),
    decreases b.len(),
{
    if b.len() == 0 {
        assert(a + b =~= a);
        assert(started(a) + started(b) =~= started(a));
    } else {
        assert((a + b).drop_last() =~= a + b.drop_last());
        assert((a + b).last() == b.last());
        lemma_started_concat(a, b.drop_last());
        assert(started(a + b) =~= started(a) + started(b));
    }
}

proof fn lemma_part_starts(t: TrackerView, part: JsonView)
    ensures
        t.next_index <= diff_part(t, part).0.next_index <= t.next_index + 1,
        started(diff_part(t, part).1) == numbers(
            t.next_index,
            (diff_part(t, part).0.next_index - t.next_index) as nat,
        ),
{
    reveal_with_fuel(started, 3);
    let now = diff_part(t, part);
    let n = (now.0.next_index - t.next_index) as nat;
    if now.1.len() > 0 {
        assert(now.1.drop_last().len() == now.1.len() - 1);
        if now.1.len() == 2 {
            assert(now.1.drop_last().last() == now.1[0]);
            assert(now.1.drop_last().drop_last() =~= Seq::empty());
        } else {
            assert(now.1.drop_last() =~= Seq::empty());
        }
    }
    assert(started(now.1) =~= numbers(t.next_index, n));
}

/// The blocks of a stream are numbered one by one, in the order in which they
/// open.
pub proof fn law_blocks_are_numbered_in_order(t: TrackerView, parts: Seq<JsonView>)
    ensures
        t.next_index <= diff_parts(t, parts).0.next_index,
        started(diff_parts(t, parts).1) == numbers(
            t.next_index,
            (diff_parts(t, parts).0.next_index - t.next_index) as nat,
        ),
    decreases parts.len(),
{
    let now = diff_parts(t, parts);
    if parts.len() == 0 {
        assert(started(now.1) =~= numbers(t.next_index, 0));
    } else {
        let before = diff_parts(t, parts.drop_last());
        let last = diff_part(before.0, parts.last());
        law_blocks_are_numbered_in_order(t, parts.drop_last());
        lemma_part_starts(before.0, parts.last());
        lemma_started_concat(before.1, last.1);
        assert(started(now.1) =~= numbers(
            t.next_index,
            (now.0.next_index - t.next_index) as nat,
        ));
    }
}

proof fn lemma_stops(n: nat)
    ensures
        stopped(stops(n)) == numbers(0, n),
    decreases n,
{
    if n == 0 {
        assert(stopped(stops(0)) =~= numbers(0, 0));
    } else {
        lemma_stops((n - 1) as nat);
        assert(stops(n).drop_last() =~= stops((n - 1) as nat));
        assert(stopped(stops(n)) =~= numbers(0, n));
    }
}

/// Every block that a stream opens is closed at its end, once and in the
/// order of the indexes, and no other block is.
pub proof fn law_every_block_is_stopped(parts: Seq<JsonView>)
    ensures
        stopped(stops(diff_parts(TrackerView::fresh(), parts).0.next_index)) == started(
            diff_parts(TrackerView::fresh(), parts).1,
        ),
{
    law_blocks_are_numbered_in_order(TrackerView::fresh(), parts);
    lemma_stops(diff_parts(TrackerView::fresh(), parts).0.next_index);
}

/// The block that an event adds to, if it does.
pub open spec fn delta_index(e: Event) -> Option<nat> {
    match e {
        Event::TextDelta { index, .. } => Some(index),
        Event::ToolInput { index, .. } => Some(index),
        _ => None,
    }
}

/// What an event adds is never empty, and goes to a block that was opened
/// before it.
pub proof fn law_deltas_go_to_open_blocks(t: TrackerView, parts: Seq<JsonView>, i: int)
    requires
        sound(t),
        0 <= i < diff_parts(t, parts).1.len(),
    ensures
        delta_index(diff_parts(t, parts).1[i]) matches Some(n) ==> n < t.next_index || started(
            diff_parts(t, parts).1.take(i),
        ).contains(n),
        diff_parts(t, parts).1[i] matches Event::TextDelta { text, .. } ==> text.len() > 0,
    decreases parts.len(),
{
    if parts.len() > 0 {
        let before = diff_parts(t, parts.drop_last());
        let last = diff_part(before.0, parts.last());
        let all = before.1 + last.1;
        if i < before.1.len() {
            law_deltas_go_to_open_blocks(t, parts.drop_last(), i);
            assert(all.take(i) =~= before.1.take(i));
        } else {
            let k = i - before.1.len();
            law_blocks_are_numbered_in_order(t, parts.drop_last());
            law_blocks_are_not_shared(t, parts.drop_last());
            assert(all[i] == last.1[k]);
            assert(all.take(i) =~= before.1 + last.1.take(k));
            lemma_started_concat(before.1, last.1.take(k));
            if delta_index(all[i]) is Some {
                let n = delta_index(all[i])->Some_0;
                let known = started(before.1);
                if n < before.0.next_index {
                    if n >= t.next_index {
                        assert(known[n - t.next_index] == n);
                        assert((known + started(last.1.take(k)))[n - t.next_index] == n);
                    }
                } else {
                    assert(n == before.0.next_index);
                    assert(k == 1);
                    assert(last.1.take(1).drop_last() =~= Seq::empty());
                    assert(last.1.take(1).last() == last.1[0]);
                    reveal_with_fuel(started, 2);
                    assert(started(last.1.take(1)) =~= seq![n]);
                    assert((known + seq![n])[known.len() as int] == n);
                }
            }
        }
    }
}

/// Whether some events open a tool_use block.
pub open spec fn opens_tool(events: Seq<Event>) -> bool {
    exists|i: int| 0 <= i < events.len() && #[trigger] events[i] is ToolStart
}

/// A tracker knows whether a tool_use block was opened.
pub proof fn law_tool_use_is_seen(t: TrackerView, parts: Seq<JsonView>)
    ensures
        diff_parts(t, parts).0.saw_tool_use == (t.saw_tool_use || opens_tool(
            diff_parts(t, parts).1,
        )),
    decreases parts.len(),
{
    if parts.len() > 0 {
        let before = diff_parts(t, parts.drop_last());
        let last = diff_part(before.0, parts.last());
        let all = before.1 + last.1;
        law_tool_use_is_seen(t, parts.drop_last());
        if opens_tool(before.1) {
            let i = choose|i: int| 0 <= i < before.1.len() && #[trigger] before.1[i] is ToolStart;
            assert(all[i] is ToolStart);
        }
        if last.1.len() > 0 && last.1[0] is ToolStart {
            assert(all[before.1.len() as int] is ToolStart);
        }
        if opens_tool(all) {
            let i = choose|i: int| 0 <= i < all.len() && #[trigger] all[i] is ToolStart;
            if i < before.1.len() {
                assert(before.1[i] is ToolStart);
            } else {
                assert(last.1[i - before.1.len()] is ToolStart);
            }
        }
    }
}

/// The text that some events add to the block `n`.
pub open spec fn sent(events: Seq<Event>, n: nat) -> Seq<char>
    decreases events.len(),
{
    if events.len() == 0 {
        Seq::empty()
    } else {
        let before = sent(events.drop_last(), n);
        match events.last() {
            Event::TextDelta { index, text, .. } => if index == n {
                before + text
            } else {
                before
            },
            _ => before,
        }
    }
}

proof fn lemma_sent_concat(a: Seq<Event>, b: Seq<Event>, n: nat)
    ensures
        sent(a + b, n) == sent(a, n) + sent(b, n),
    decreases b.len(),
{
    if b.len() == 0 {
        assert(a + b =~= a);
        assert(sent(a, n) + sent(b, n) =~= sent(a, n));
    } else {
        assert((a + b).drop_last() =~= a + b.drop_last());
        assert((a + b).last() == b.last());
        lemma_sent_concat(a, b.drop_last(), n);
        assert(sent(a + b, n) =~= sent(a, n) + sent(b, n));
    }
}

/// The id of a part.
pub open spec fn part_id(part: JsonView) -> Seq<char> {
    part.str_or("id"@, ""@)
}

/// The text of a part.
pub open spec fn part_text(part: JsonView) -> Seq<char> {
    part.str_or("text"@, ""@)
}

/// Whether a part is a text or reasoning part with an id.
pub open spec fn is_text(part: JsonView) -> bool {
    part_id(part).len() > 0 && (part.str_at("type"@) == Some("text"@) || part.str_at("type"@)
        == Some("reasoning"@))
}

/// Whether a part opens a tool_use block, the first time it is shown.
pub open spec fn opens_tool_block(part: JsonView) -> bool {
    native::is_tool_call(part) && settled(part)
}

/// Whether the parts with the id `id` are shown as a server shows a text: it
/// only grows, and its id is not that of a tool call too.
pub open spec fn grows(parts: Seq<JsonView>, id: Seq<char>) -> bool {
    &&& forall|i: int, j: int|
        0 <= i < j < parts.len() && is_text(#[trigger] parts[i]) && is_text(#[trigger] parts[j])
            && part_id(parts[i]) == id && part_id(parts[j]) == id ==> part_text(
            parts[i],
        ).is_prefix_of(part_text(parts[j]))
    &&& forall|i: int|
        0 <= i < parts.len() && part_id(#[trigger] parts[i]) == id ==> !opens_tool_block(parts[i])
}

/// Whether the `i`th part is the last text part that shows its id.
pub open spec fn latest(parts: Seq<JsonView>, i: int) -> bool {
    &&& is_text(parts[i])
    &&& forall|j: int|
        i < j < parts.len() ==> !(is_text(#[trigger] parts[j]) && part_id(parts[j]) == part_id(
            parts[i],
        ))
}

/// Whether the events so far have sent the whole text of a part, and the
/// tracker knows it.
pub open spec fn sent_whole(t: TrackerView, events: Seq<Event>, part: JsonView) -> bool {
    let id = part_id(part);
    let content = part_text(part);
    content.len() > 0 ==> {
        &&& t.blocks.contains_key(id)
        &&& t.shown(id) == content.len()
        &&& sent(events, t.blocks[id]) == content
    }
}

proof fn lemma_later_blocks_empty(t: TrackerView, parts: Seq<JsonView>, n: nat)
    requires
        sound(t),
        n >= diff_parts(t, parts).0.next_index,
    ensures
        sent(diff_parts(t, parts).1, n) == Seq::<char>::empty(),
    decreases parts.len(),
{
    if parts.len() > 0 {
        let before = diff_parts(t, parts.drop_last());
        let last = diff_part(before.0, parts.last());
        lemma_part_starts(before.0, parts.last());
        law_blocks_are_not_shared(t, parts.drop_last());
        lemma_later_blocks_empty(t, parts.drop_last(), n);
        lemma_sent_concat(before.1, last.1, n);
        lemma_part_sends(before.0, parts.last(), n);
    }
}

/// What one part adds to the block `n`.
proof fn lemma_part_sends(t: TrackerView, part: JsonView, n: nat)
    ensures
        sent(diff_part(t, part).1, n) == {
            let id = part_id(part);
            let now = diff_part(t, part).0;
            let shown = if t.blocks.contains_key(id) {
                t.shown(id)
            } else {
                0
            };
            if is_text(part) && part_text(part).len() > shown && now.blocks[id] == n {
                part_text(part).skip(shown as int)
            } else {
                Seq::<char>::empty()
            }
        },
{
    reveal_with_fuel(sent, 3);
    let d = diff_part(t, part);
    if d.1.len() > 0 {
        if d.1.len() == 2 {
            assert(d.1.drop_last().last() == d.1[0]);
            assert(d.1.drop_last().drop_last() =~= Seq::empty());
        } else {
            assert(d.1.drop_last() =~= Seq::empty());
        }
        if d.1.last() is TextDelta {
            let s = d.1.last()->TextDelta_text;
            assert(Seq::<char>::empty() + s =~= s);
        }
    }
}

/// Whether a part opens a block, the first time it is shown.
pub open spec fn opens_block(part: JsonView) -> bool {
    is_text(part) && part_text(part).len() > 0 || opens_tool_block(part)
}

/// Only parts that were shown have blocks.
proof fn lemma_blocks_were_shown(parts: Seq<JsonView>, id: Seq<char>)
    requires
        diff_parts(TrackerView::fresh(), parts).0.blocks.contains_key(id),
    ensures
        exists|k: int|
            0 <= k < parts.len() && part_id(#[trigger] parts[k]) == id && opens_block(parts[k]),
    decreases parts.len(),
{
    let t = TrackerView::fresh();
    if parts.len() > 0 {
        let start = parts.drop_last();
        let before = diff_parts(t, start).0;
        if before.blocks.contains_key(id) {
            lemma_blocks_were_shown(start, id);
            let k = choose|k: int|
                0 <= k < start.len() && part_id(#[trigger] start[k]) == id && opens_block(start[k]);
            assert(parts[k] == start[k]);
        } else {
            assert(parts[parts.len() - 1] == parts.last());
        }
    }
}

/// The last text part of an id, at or after `i`.
proof fn lemma_latest_exists(parts: Seq<JsonView>, i: int) -> (k: int)
    requires
        0 <= i < parts.len(),
        is_text(parts[i]),
    ensures
        i <= k < parts.len(),
        part_id(parts[k]) == part_id(parts[i]),
        latest(parts, k),
    decreases parts.len() - i,
{
    if latest(parts, i) {
        i
    } else {
        let j = choose|j: int|
            i < j < parts.len() && is_text(#[trigger] parts[j]) && part_id(parts[j]) == part_id(
                parts[i],
            );
        lemma_latest_exists(parts, j)
    }
}

/// A client that puts the deltas of a block together has the whole text of
/// its part, whatever the readings showed of it in between. `parts` are the
/// parts of all readings, one reading after another.
pub proof fn law_text_is_sent_whole(parts: Seq<JsonView>, i: int)
    requires
        0 <= i < parts.len(),
        latest(parts, i),
        grows(parts, part_id(parts[i])),
    ensures
        sent_whole(
            diff_parts(TrackerView::fresh(), parts).0,
            diff_parts(TrackerView::fresh(), parts).1,
            parts[i],
        ),
    decreases parts.len(),
{
    let t = TrackerView::fresh();
    let start = parts.drop_last();
    let before = diff_parts(t, start);
    let p = parts.last();
    let last = diff_part(before.0, p);
    let id = part_id(parts[i]);
    let content = part_text(parts[i]);
    let now = last.0;
    assert(sound(t));
    law_blocks_are_not_shared(t, start);
    assert(grows(start, id)) by {
        assert forall|a: int, b: int|
            0 <= a < b < start.len() && is_text(#[trigger] start[a]) && is_text(#[trigger] start[b])
                && part_id(start[a]) == id && part_id(start[b]) == id implies part_text(
            start[a],
        ).is_prefix_of(part_text(start[b])) by {
            assert(start[a] == parts[a] && start[b] == parts[b]);
        }
        assert forall|a: int|
            0 <= a < start.len() && part_id(#[trigger] start[a]) == id implies !opens_tool_block(
            start[a],
        ) by {
            assert(start[a] == parts[a]);
        }
    }
    assert(parts[parts.len() - 1] == p);
    reveal_strlit("tool");
    reveal_strlit("text");
    reveal_strlit("reasoning");
    assert("tool"@[1] != "text"@[1]);
    assert("reasoning"@[0] != "tool"@[0]);
    if content.len() > 0 {
        if i < parts.len() - 1 {
            assert(start[i] == parts[i]);
            assert forall|j: int| i < j < start.len() implies !(is_text(#[trigger] start[j])
                && part_id(start[j]) == part_id(start[i])) by {
                assert(start[j] == parts[j]);
            }
            law_text_is_sent_whole(start, i);
            let n = before.0.blocks[id];
            assert(before.0.blocks.contains_key(id));
            assert(part_id(p) == id ==> !is_text(p) && !opens_tool_block(p));
            assert(now.blocks.contains_key(id) && now.blocks[id] == n);
            assert(now.shown(id) == before.0.shown(id));
            lemma_sent_concat(before.1, last.1, n);
            lemma_part_sends(before.0, p, n);
            if is_text(p) {
                lemma_part_keeps_sound(before.0, p);
                assert(now.blocks.contains_key(part_id(p)) ==> now.blocks[part_id(p)] != n);
            }
            assert(sent(before.1, n) + Seq::<char>::empty() =~= sent(before.1, n));
            if is_text(p) && part_text(p).len() > 0 {
                assert(now.blocks.contains_key(part_id(p)));
            }
        } else {
            assert(p == parts[i]);
            let known = before.0.blocks.contains_key(id);
            if known {
                lemma_blocks_were_shown(start, id);
                let k0 = choose|k: int|
                    0 <= k < start.len() && part_id(#[trigger] start[k]) == id && opens_block(
                        start[k],
                    );
                assert(is_text(start[k0]));
                let k = lemma_latest_exists(start, k0);
                if k != k0 {
                    assert(part_text(start[k0]).is_prefix_of(part_text(start[k])));
                }
                law_text_is_sent_whole(start, k);
                let old_text = part_text(start[k]);
                assert(start[k] == parts[k]);
                assert(old_text.is_prefix_of(content));
                assert(old_text.len() > 0);
                let n = before.0.blocks[id];
                assert(now.blocks[id] == n);
                lemma_sent_concat(before.1, last.1, n);
                lemma_part_sends(before.0, p, n);
                if content.len() > old_text.len() {
                    assert(old_text + content.skip(old_text.len() as int) =~= content);
                } else {
                    assert(old_text =~= content);
                    assert(old_text + Seq::<char>::empty() =~= old_text);
                }
            } else {
                let n = before.0.next_index;
                assert(now.blocks[id] == n);
                lemma_sent_concat(before.1, last.1, n);
                lemma_part_sends(before.0, p, n);
                lemma_later_blocks_empty(t, start, n);
                assert(Seq::<char>::empty() + content.skip(0) =~= content);
            }
        }
    }
}

/// Whether the data of an event is one line and begins as a JSON object.
pub open spec fn well_framed(data: Seq<char>) -> bool {
    in_one_line(data) && data.len() > 0 && data[0] == '{'
}

/// The data of every event is one line, begins as a JSON object, and so is
/// never a bare end mark.
pub proof fn law_event_data_is_one_line(e: Event)
    ensures
        well_framed(e.data()),
{
    reveal_strlit("{\"type\":\"content_block_start\",\"index\":");
    reveal_strlit(",\"content_block\":");
    reveal_strlit("{\"type\":\"content_block_delta\",\"index\":");
    reveal_strlit(",\"delta\":");
    reveal_strlit("{\"type\":\"content_block_stop\",\"index\":");
    reveal_strlit("}");
    reveal_strlit("\"}");
    match e {
        Event::TextStart { index, thinking } => {
            reveal_strlit("{\"type\":\"thinking\",\"thinking\":\"\"}");
            reveal_strlit("{\"type\":\"text\",\"text\":\"\"}");
            json_text::lemma_numeral_in_one_line(index, 10);
        },
        Event::TextDelta { index, thinking, text } => {
            reveal_strlit("{\"type\":\"thinking_delta\",\"thinking\":\"");
            reveal_strlit("{\"type\":\"text_delta\",\"text\":\"");
            json_text::lemma_numeral_in_one_line(index, 10);
            json_text::law_escaped_in_one_line(text);
        },
        Event::ToolStart { index, call_id, tool } => {
            reveal_strlit("{\"type\":\"tool_use\",\"id\":\"");
            reveal_strlit("\",\"name\":\"");
            reveal_strlit("\",\"input\":{}}");
            json_text::lemma_numeral_in_one_line(index, 10);
            json_text::law_escaped_in_one_line(call_id);
            json_text::law_escaped_in_one_line(tool);
        },
        Event::ToolInput { index, input } => {
            reveal_strlit("{\"type\":\"input_json_delta\",\"partial_json\":\"");
            json_text::lemma_numeral_in_one_line(index, 10);
            json_text::law_escaped_in_one_line(input.text());
        },
        Event::Stop { index } => {
            json_text::lemma_numeral_in_one_line(index, 10);
        },
    }
}

proof fn lemma_put_plain(
    members: Seq<(Seq<char>, JsonView)>,
    key: Seq<char>,
    value: JsonView,
    i: int,
)
    requires
        forall|k: int| 0 <= k < members.len() ==> plain_numbers((#[trigger] members[k]).1),
        plain_numbers(value),
        0 <= i < json::put(members, key, value).len(),
    ensures
        plain_numbers(json::put(members, key, value)[i].1),
    decreases members.len(),
{
    let after = json::put(members, key, value);
    if members.len() == 0 {
    } else if members[0].0 == key {
        if i > 0 {
            assert(after[i] == members[i]);
        }
    } else if json::before(key, members[0].0) {
        if i > 0 {
            assert(after[i] == members[i - 1]);
        }
    } else if i == 0 {
        assert(after[0] == members[0]);
    } else {
        let rest = members.drop_first();
        assert forall|k: int| 0 <= k < rest.len() implies plain_numbers(
            (#[trigger] rest[k]).1,
        ) by {
            assert(rest[k] == members[k + 1]);
        }
        lemma_put_plain(rest, key, value, i - 1);
        assert(after[i] == json::put(rest, key, value)[i - 1]);
    }
}

proof fn lemma_members_plain(j: JsonView)
    requires
        j is Obj,
        plain_numbers(j),
    ensures
        forall|k: int| 0 <= k < j->Obj_0.len() ==> plain_numbers((#[trigger] j->Obj_0[k]).1),
{
    match j {
        JsonView::Obj(members) => {
            assert(forall|i: int|
                0 <= i < members.len() ==> plain_numbers((#[trigger] members[i]).1));
        },
        _ => {},
    }
}

proof fn lemma_object_plain(entries: Seq<(Seq<char>, JsonView)>)
    requires
        forall|k: int| 0 <= k < entries.len() ==> plain_numbers((#[trigger] entries[k]).1),
    ensures
        plain_numbers(json::object_of(entries)),
    decreases entries.len(),
{
    let members = json::put_all(entries);
    if entries.len() > 0 {
        let start = entries.drop_last();
        let before = json::put_all(start);
        assert forall|k: int| 0 <= k < start.len() implies plain_numbers(
            (#[trigger] start[k]).1,
        ) by {
            assert(start[k] == entries[k]);
        }
        lemma_object_plain(start);
        let o = json::object_of(start);
        lemma_members_plain(o);
        assert(o->Obj_0 == before);
        assert(forall|k: int| 0 <= k < before.len() ==> plain_numbers((#[trigger] before[k]).1));
        assert(plain_numbers(entries[entries.len() - 1].1));
        assert forall|i: int| 0 <= i < members.len() implies plain_numbers(
            (#[trigger] members[i]).1,
        ) by {
            lemma_put_plain(before, entries.last().0, entries.last().1, i);
        }
    }
}

proof fn lemma_usage_plain(input_tokens: u64, output_tokens: u64)
    ensures
        plain_numbers(usage(input_tokens, output_tokens)),
{
    lemma_object_plain(
        seq![
            ("input_tokens"@, JsonView::Num(NumberView::Unsigned(input_tokens))),
            ("output_tokens"@, JsonView::Num(NumberView::Unsigned(output_tokens))),
        ],
    );
}

/// The data of the event that opens a stream is one line and a JSON object.
pub proof fn law_opening_data_is_one_line(msg_id: Seq<char>, model: Seq<char>)
    ensures
        well_framed(opening_message(msg_id, model).text()),
{
    lemma_usage_plain(0, 0);
    let inner = seq![
        ("id"@, JsonView::Str(msg_id)),
        ("type"@, JsonView::Str("message"@)),
        ("role"@, JsonView::Str("assistant"@)),
        ("content"@, JsonView::Arr(Seq::empty())),
        ("model"@, JsonView::Str(model)),
        ("stop_reason"@, JsonView::Null),
        ("stop_sequence"@, JsonView::Null),
        ("usage"@, usage(0, 0)),
    ];
    lemma_object_plain(inner);
    lemma_object_plain(
        seq![("type"@, JsonView::Str("message_start"@)), ("message"@, json::object_of(inner))],
    );
    json_text::law_text_in_one_line(opening_message(msg_id, model));
}

/// The data of the events that end a stream is one line and a JSON object.
pub proof fn law_closing_data_is_one_line(
    stop_reason: Seq<char>,
    input_tokens: u64,
    output_tokens: u64,
)
    ensures
        well_framed(closing_delta(stop_reason, input_tokens, output_tokens).text()),
        well_framed("{\"type\":\"message_stop\"}"@),
{
    lemma_usage_plain(input_tokens, output_tokens);
    let inner = seq![
        ("stop_reason"@, JsonView::Str(stop_reason)),
        ("stop_sequence"@, JsonView::Null),
    ];
    lemma_object_plain(inner);
    lemma_object_plain(
        seq![
            ("type"@, JsonView::Str("message_delta"@)),
            ("delta"@, json::object_of(inner)),
            ("usage"@, usage(input_tokens, output_tokens)),
        ],
    );
    json_text::law_text_in_one_line(closing_delta(stop_reason, input_tokens, output_tokens));
    reveal_strlit("{\"type\":\"message_stop\"}");
}

proof fn lemma_one_more_line(before: Seq<char>, line: Seq<char>)
    requires
        !text::in_line(before),
        in_one_line(line),
        line.len() > 0,
    ensures
        text::lines_of(before + line) == text::lines_of(before).push(line),
        text::in_line(before + line),
    decreases line.len(),
{
    let whole = before + line;
    assert(whole.drop_last() =~= before + line.drop_last());
    assert(whole.last() == line.last());
    assert(line[line.len() - 1] as nat >= 0x20);
    if line.len() == 1 {
        assert(whole.drop_last() =~= before);
        assert(seq![line.last()] =~= line);
    } else {
        let start = line.drop_last();
        assert forall|i: int| 0 <= i < start.len() implies 0x20 <= #[trigger] start[i] as nat by {
            assert(start[i] == line[i]);
        }
        lemma_one_more_line(before, start);
        assert(start.push(line.last()) =~= line);
        assert(text::lines_of(before).push(start).drop_last() =~= text::lines_of(before));
    }
}

proof fn lemma_line_ends(before: Seq<char>, line: Seq<char>)
    requires
        !text::in_line(before),
        in_one_line(line),
        line.len() > 0,
    ensures
        text::lines_of(before + line + seq!['\n']) == text::lines_of(before).push(line),
        !text::in_line(before + line + seq!['\n']),
{
    lemma_one_more_line(before, line);
    let whole = before + line + seq!['\n'];
    assert(whole.drop_last() =~= before + line);
    assert(whole.last() == '\n');
    assert(line[line.len() - 1] as nat >= 0x20);
    assert(text::lines_of(before).push(line).drop_last() =~= text::lines_of(before));
}

/// A frame whose event and data are one line each is read back line by line:
/// the event, the data, and the empty line that ends the frame.
pub proof fn law_frame_reads_back(event: Seq<char>, data: Seq<char>)
    requires
        in_one_line(event),
        in_one_line(data),
    ensures
        text::lines_of(sse(event, data)) == seq![
            "event: "@ + event,
            "data: "@ + data,
            Seq::<char>::empty(),
        ],
{
    reveal_strlit("event: ");
    reveal_strlit("\ndata: ");
    reveal_strlit("data: ");
    reveal_strlit("\n\n");
    let first = "event: "@ + event;
    let second = "data: "@ + data;
    let nothing = Seq::<char>::empty();
    let one = nothing + first + seq!['\n'];
    let two = one + second + seq!['\n'];
    let whole = two + seq!['\n'];
    lemma_line_ends(nothing, first);
    lemma_line_ends(one, second);
    assert(sse(event, data) =~= whole);
    assert(whole.drop_last() =~= two);
    assert(whole.last() == '\n');
    assert(text::lines_of(nothing) =~= Seq::empty());
    assert(text::lines_of(whole) =~= seq![first, second, nothing]);
}

/// The name of every event is one line.
pub proof fn law_event_name_is_one_line(e: Event)
    ensures
        in_one_line(e.name()),
{
    reveal_strlit("content_block_start");
    reveal_strlit("content_block_delta");
    reveal_strlit("content_block_stop");
}

/// A part that is shown for the first time, and whose tool has settled, opens
/// a block exactly when the message of a unary answer has one for it, with
/// the same text, or the same call, tool and input.
pub proof fn law_stream_shows_what_the_answer_shows(t: TrackerView, part: JsonView)
    requires
        part_id(part).len() > 0,
        !t.blocks.contains_key(part_id(part)),
        !t.tools.contains(part_id(part)),
        native::is_tool_call(part) ==> settled(part),
    ensures
        is_text(part) && part_text(part).len() > 0 ==> {
            let content = part_text(part);
            let thinking = part.str_at("type"@) == Some("reasoning"@);
            &&& native::reply_blocks(part) == seq![
                if thinking {
                    native::thinking_block(content)
                } else {
                    native::text_part(content)
                },
            ]
            &&& diff_part(t, part).1 == seq![
                Event::TextStart { index: t.next_index, thinking },
                Event::TextDelta { index: t.next_index, thinking, text: content },
            ]
        },
        native::is_tool_call(part) ==> {
            let call_id = part.str_or("callID"@, ""@);
            let tool = part.str_or("tool"@, ""@);
            &&& native::reply_blocks(part)[0] == native::tool_use_block(
                call_id,
                tool,
                tool_input(part),
            )
            &&& diff_part(t, part).1 == seq![
                Event::ToolStart { index: t.next_index, call_id, tool },
                Event::ToolInput { index: t.next_index, input: tool_input(part) },
            ]
        },
        !(is_text(part) && part_text(part).len() > 0) && !native::is_tool_call(part) ==> {
            &&& native::reply_blocks(part).len() == 0
            &&& diff_part(t, part).1.len() == 0
        },
{
    reveal_strlit("");
    reveal_strlit("tool");
    reveal_strlit("text");
    reveal_strlit("reasoning");
    assert("tool"@[1] != "text"@[1]);
    assert("reasoning"@[0] != "tool"@[0]);
    assert("reasoning"@[0] != "text"@[0]);
    let content = part_text(part);
    if is_text(part) && content.len() > 0 {
        let thinking = part.str_at("type"@) == Some("reasoning"@);
        assert(content.skip(0) =~= content);
        assert(diff_part(t, part).1 =~= seq![
            Event::TextStart { index: t.next_index, thinking },
            Event::TextDelta { index: t.next_index, thinking, text: content },
        ]);
    }
}

/// How many tool_use blocks some events open.
pub open spec fn tools_opened(events: Seq<Event>) -> nat
    decreases events.len(),
{
    if events.len() == 0 {
        0
    } else {
        tools_opened(events.drop_last()) + if events.last() is ToolStart {
            1nat
        } else {
            0nat
        }
    }
}

proof fn lemma_tools_opened_concat(a: Seq<Event>, b: Seq<Event>)
    ensures
        tools_opened(a + b) == tools_opened(a) + tools_opened(b),
    decreases b.len(),
{
    if b.len() == 0 {
        assert(a + b =~= a);
    } else {
        assert((a + b).drop_last() =~= a + b.drop_last());
        assert((a + b).last() == b.last());
        lemma_tools_opened_concat(a, b.drop_last());
    }
}

/// Each tool part opens its block once, however often it is shown.
pub proof fn law_each_tool_opens_once(t: TrackerView, parts: Seq<JsonView>)
    requires
        t.tools.finite(),
    ensures
        diff_parts(t, parts).0.tools.finite(),
        diff_parts(t, parts).0.tools.len() == t.tools.len() + tools_opened(diff_parts(t, parts).1),
    decreases parts.len(),
{
    if parts.len() > 0 {
        let before = diff_parts(t, parts.drop_last());
        let last = diff_part(before.0, parts.last());
        law_each_tool_opens_once(t, parts.drop_last());
        lemma_tools_opened_concat(before.1, last.1);
        reveal_with_fuel(tools_opened, 3);
        if last.1.len() > 0 {
            if last.1.len() == 2 {
                assert(last.1.drop_last().last() == last.1[0]);
                assert(last.1.drop_last().drop_last() =~= Seq::empty());
            } else {
                assert(last.1.drop_last() =~= Seq::empty());
            }
        }
    }
}

/// The block `n` that a client makes of the event that opens it and the event
/// that fills it; null where these are not two such events.
pub open spec fn block_of(n: nat, start: Event, delta: Event) -> JsonView {
    match (start, delta) {
        (
            Event::TextStart { index: a, thinking: x },
            Event::TextDelta { index: b, thinking: y, text },
        ) => if a == n && b == n && x == y {
            if x {
                native::thinking_block(text)
            } else {
                native::text_part(text)
            }
        } else {
            JsonView::Null
        },
        (
            Event::ToolStart { index: a, call_id, tool },
            Event::ToolInput { index: b, input },
        ) => if a == n && b == n {
            native::tool_use_block(call_id, tool, input)
        } else {
            JsonView::Null
        },
        _ => JsonView::Null,
    }
}

/// The blocks that a client makes of events that open and fill one block
/// after another.
pub open spec fn assembled(events: Seq<Event>) -> Seq<JsonView> {
    Seq::new(events.len() / 2, |i: int| block_of(i as nat, events[2 * i], events[2 * i + 1]))
}

/// The blocks that are no tool results, in order.
pub open spec fn without_results(blocks: Seq<JsonView>) -> Seq<JsonView>
    decreases blocks.len(),
{
    if blocks.len() == 0 {
        Seq::empty()
    } else {
        let before = without_results(blocks.drop_last());
        if blocks.last().str_at("type"@) == Some("tool_result"@) {
            before
        } else {
            before.push(blocks.last())
        }
    }
}

proof fn lemma_without_results_concat(a: Seq<JsonView>, b: Seq<JsonView>)
    ensures
        without_results(a + b) == without_results(a) + without_results(b),
    decreases b.len(),
{
    if b.len() == 0 {
        assert(a + b =~= a);
        assert(without_results(a) + without_results(b) =~= without_results(a));
    } else {
        assert((a + b).drop_last() =~= a + b.drop_last());
        assert((a + b).last() == b.last());
        lemma_without_results_concat(a, b.drop_last());
        assert(without_results(a + b) =~= without_results(a) + without_results(b));
    }
}

proof fn lemma_part_without_results(part: JsonView)
    ensures
        without_results(native::reply_blocks(part)) == (if native::reply_blocks(part).len() == 0 {
            Seq::empty()
        } else {
            seq![native::reply_blocks(part)[0]]
        }),
{
    let blocks = native::reply_blocks(part);
    native::lemma_types_differ();
    if let Some(s) = part.str_at("text"@) {
        native::lemma_types(s, s, part);
    }
    let id = part.str_or("callID"@, ""@);
    native::lemma_types(id, part.str_or("tool"@, ""@), tool_input(part));
    native::lemma_types(id, native::state_str(part, "output"@, ""@), part);
    native::lemma_types(id, native::state_str(part, "error"@, "unknown error"@), part);
    reveal_with_fuel(without_results, 3);
    if blocks.len() == 2 {
        assert(blocks.drop_last() =~= seq![blocks[0]]);
        assert(blocks.drop_last().drop_last() =~= Seq::empty());
        assert(without_results(blocks) =~= seq![blocks[0]]);
    } else if blocks.len() == 1 {
        assert(blocks.drop_last() =~= Seq::empty());
        assert(without_results(blocks) =~= seq![blocks[0]]);
    }
}

proof fn lemma_tools_have_blocks(parts: Seq<JsonView>, id: Seq<char>)
    requires
        diff_parts(TrackerView::fresh(), parts).0.tools.contains(id),
    ensures
        diff_parts(TrackerView::fresh(), parts).0.blocks.contains_key(id),
    decreases parts.len(),
{
    if parts.len() > 0 {
        let before = diff_parts(TrackerView::fresh(), parts.drop_last()).0;
        if before.tools.contains(id) {
            lemma_tools_have_blocks(parts.drop_last(), id);
        }
    }
}

/// Whether every part of a list that an answer shows has an id of its own,
/// and every tool has settled.
pub open spec fn shown_once(parts: Seq<JsonView>) -> bool {
    &&& forall|i: int, j: int|
        0 <= i < j < parts.len() && part_id(#[trigger] parts[i]) == part_id(#[trigger] parts[j])
            ==> part_id(parts[i]).len() == 0
    &&& forall|i: int|
        0 <= i < parts.len() && native::reply_blocks(#[trigger] parts[i]).len() > 0 ==> part_id(
            parts[i],
        ).len() > 0
    &&& forall|i: int|
        0 <= i < parts.len() && native::is_tool_call(#[trigger] parts[i]) ==> settled(parts[i])
}

/// A stream and a unary answer show the same: what a client makes of the
/// events of a finished turn are the blocks that the answer has for its parts,
/// without the tool results, one by one and in the same order.
pub proof fn law_stream_and_answer_show_the_same(parts: Seq<JsonView>)
    requires
        shown_once(parts),
    ensures
        diff_parts(TrackerView::fresh(), parts).1.len() == 2 * diff_parts(
            TrackerView::fresh(),
            parts,
        ).0.next_index,
        assembled(diff_parts(TrackerView::fresh(), parts).1) == without_results(
            native::all_reply_blocks(parts),
        ),
    decreases parts.len(),
{
    let fresh = TrackerView::fresh();
    if parts.len() == 0 {
        assert(assembled(Seq::empty()) =~= Seq::empty());
    } else {
        let start = parts.drop_last();
        let p = parts.last();
        let id = part_id(p);
        let before = diff_parts(fresh, start);
        let last = diff_part(before.0, p);
        let all = before.1 + last.1;
        let blocks = native::reply_blocks(p);
        assert(parts[parts.len() - 1] == p);
        assert(shown_once(start)) by {
            assert forall|i: int, j: int|
                0 <= i < j < start.len() && part_id(#[trigger] start[i]) == part_id(
                    #[trigger] start[j],
                ) implies part_id(start[i]).len() == 0 by {
                assert(start[i] == parts[i] && start[j] == parts[j]);
            }
            assert forall|i: int|
                0 <= i < start.len() && native::reply_blocks(#[trigger] start[i]).len()
                    > 0 implies part_id(start[i]).len() > 0 by {
                assert(start[i] == parts[i]);
            }
            assert forall|i: int|
                0 <= i < start.len() && native::is_tool_call(#[trigger] start[i]) implies settled(
                start[i],
            ) by {
                assert(start[i] == parts[i]);
            }
        }
        law_stream_and_answer_show_the_same(start);
        lemma_without_results_concat(native::all_reply_blocks(start), blocks);
        lemma_part_without_results(p);
        let so_far = assembled(before.1);
        let n = before.0.next_index;
        if id.len() > 0 {
            if before.0.blocks.contains_key(id) {
                lemma_blocks_were_shown(start, id);
                let k = choose|k: int|
                    0 <= k < start.len() && part_id(#[trigger] start[k]) == id && opens_block(
                        start[k],
                    );
                assert(start[k] == parts[k]);
                assert(false);
            }
            if before.0.tools.contains(id) {
                lemma_tools_have_blocks(start, id);
            }
            law_stream_shows_what_the_answer_shows(before.0, p);
        }
        if last.1.len() == 0 {
            assert(all =~= before.1);
            assert(so_far + Seq::<JsonView>::empty() =~= so_far);
        } else {
            assert(last.1.len() == 2);
            assert(all[2 * n as int] == last.1[0]);
            assert(all[2 * n as int + 1] == last.1[1]);
            assert(block_of(n, last.1[0], last.1[1]) == blocks[0]);
            assert forall|i: int| 0 <= i < n implies #[trigger] assembled(all)[i] == so_far[i] by {
                assert(all[2 * i] == before.1[2 * i]);
                assert(all[2 * i + 1] == before.1[2 * i + 1]);
            }
            assert(assembled(all) =~= so_far + seq![blocks[0]]);
        }
    }
}

/// Only tool parts that were shown count as opened.
proof fn lemma_tools_were_shown(parts: Seq<JsonView>, id: Seq<char>)
    requires
        diff_parts(TrackerView::fresh(), parts).0.tools.contains(id),
    ensures
        exists|k: int|
            0 <= k < parts.len() && part_id(#[trigger] parts[k]) == id && opens_tool_block(
                parts[k],
            ),
    decreases parts.len(),
{
    if parts.len() > 0 {
        let start = parts.drop_last();
        let before = diff_parts(TrackerView::fresh(), start).0;
        if before.tools.contains(id) {
            lemma_tools_were_shown(start, id);
            let k = choose|k: int|
                0 <= k < start.len() && part_id(#[trigger] start[k]) == id && opens_tool_block(
                    start[k],
                );
            assert(parts[k] == start[k]);
        } else {
            assert(parts[parts.len() - 1] == parts.last());
        }
    }
}

/// Whether the `k`th event opens the block of a tool call, and the one after
/// it fills that block with the whole input.
pub open spec fn tool_sent_at(events: Seq<Event>, k: int, part: JsonView) -> bool {
    &&& 0 <= k < events.len() - 1
    &&& events[k] matches Event::ToolStart { index, call_id, tool }
    &&& call_id == part.str_or("callID"@, ""@)
    &&& tool == part.str_or("tool"@, ""@)
    &&& events[k + 1] == (Event::ToolInput { index, input: tool_input(part) })
}

/// Whether the `i`th part is the first tool call with its id that has settled.
pub open spec fn first_settled(parts: Seq<JsonView>, i: int) -> bool {
    &&& part_id(parts[i]).len() > 0
    &&& opens_tool_block(parts[i])
    &&& forall|j: int|
        0 <= j < i ==> !(part_id(#[trigger] parts[j]) == part_id(parts[i]) && opens_tool_block(
            parts[j],
        ))
}

/// Every tool call that settles is sent, with its whole input right after its
/// block has opened, whatever the readings showed before and after. `parts`
/// are the parts of all readings, one reading after another.
pub proof fn law_tool_is_sent_whole(parts: Seq<JsonView>, i: int)
    requires
        0 <= i < parts.len(),
        first_settled(parts, i),
    ensures
        exists|k: int| #[trigger]
            tool_sent_at(diff_parts(TrackerView::fresh(), parts).1, k, parts[i]),
    decreases parts.len(),
{
    let t = TrackerView::fresh();
    let start = parts.drop_last();
    let before = diff_parts(t, start);
    let p = parts.last();
    let last = diff_part(before.0, p);
    let all = before.1 + last.1;
    assert(diff_parts(t, parts).1 == all);
    if i < parts.len() - 1 {
        assert(start[i] == parts[i]);
        assert forall|j: int| 0 <= j < i implies !(part_id(#[trigger] start[j]) == part_id(start[i])
            && opens_tool_block(start[j])) by {
            assert(start[j] == parts[j]);
        }
        law_tool_is_sent_whole(start, i);
        let k = choose|k: int| #[trigger] tool_sent_at(before.1, k, start[i]);
        assert(all[k] == before.1[k]);
        assert(all[k + 1] == before.1[k + 1]);
        assert(tool_sent_at(all, k, parts[i]));
    } else {
        assert(p == parts[i]);
        if before.0.tools.contains(part_id(p)) {
            lemma_tools_were_shown(start, part_id(p));
            let k = choose|k: int|
                0 <= k < start.len() && part_id(#[trigger] start[k]) == part_id(p)
                    && opens_tool_block(start[k]);
            assert(start[k] == parts[k]);
            assert(false);
        }
        reveal_strlit("tool");
        reveal_strlit("text");
        reveal_strlit("reasoning");
        assert("tool"@[1] != "text"@[1]);
        assert("reasoning"@[0] != "tool"@[0]);
        let k = before.1.len() as int;
        assert(all[k] == last.1[0]);
        assert(all[k + 1] == last.1[1]);
        assert(tool_sent_at(all, k, parts[i]));
    }
}

} // verus!
