//! Native streaming as Anthropic server-sent events.
//!
//! The native prompt API answers only when a turn is complete. A stream is
//! made of snapshots instead: the message list is read again and again while
//! the turn runs, and the parts of each snapshot are compared with what was
//! sent before. Text parts become text blocks, non-empty reasoning parts
//! become thinking blocks, completed or failed tool parts become tool_use
//! blocks; every other part is dropped.
//!
//! Each event is one frame, `event: <name>\ndata: <json>\n\n`. The stream
//! ends with `message_stop`.

use crate::json;
use crate::json::{object, Json, JsonView, Number, NumberView};
use crate::json_text;
use crate::json_text::{escape_json_string, to_text};
use crate::text;
use crate::text::{decimal_text, same};
use vstd::hash_map::StringHashMap;
use vstd::hash_set::StringHashSet;
use vstd::prelude::*;
use vstd::string::*;

verus! {

/// How many polls before giving up.
pub const MAX_POLLS: usize = 340;

/// Delay between message-list polls.
pub const POLL_INTERVAL_MS: u64 = 300;

/// One frame of the event stream.
pub open spec fn sse(event: Seq<char>, data: Seq<char>) -> Seq<char> {
    "event: "@ + event + "\ndata: "@ + data + "\n\n"@
}

/// Writes one frame.
pub fn frame(event: &str, data: &str) -> (r: String)
    ensures
        r@ == sse(event@, data@),
{
    let mut s = "event: ".to_owned();
    s.append(event);
    s.append("\ndata: ");
    s.append(data);
    s.append("\n\n");
    s
}

/// The data of a `content_block_start` event.
pub open spec fn block_start_data(index: nat, block: Seq<char>) -> Seq<char> {
    "{\"type\":\"content_block_start\",\"index\":"@ + text::decimal(index)
        + ",\"content_block\":"@ + block + "}"@
}

/// The data of a `content_block_delta` event.
pub open spec fn block_delta_data(index: nat, delta: Seq<char>) -> Seq<char> {
    "{\"type\":\"content_block_delta\",\"index\":"@ + text::decimal(index) + ",\"delta\":"@ + delta
        + "}"@
}

/// The data of a `content_block_stop` event.
pub open spec fn block_stop_data(index: nat) -> Seq<char> {
    "{\"type\":\"content_block_stop\",\"index\":"@ + text::decimal(index) + "}"@
}

/// Writes a `content_block_start` frame.
pub fn block_start_event(index: u32, block_json: &str) -> (r: String)
    ensures
        r@ == sse("content_block_start"@, block_start_data(index as nat, block_json@)),
{
    let mut s = "{\"type\":\"content_block_start\",\"index\":".to_owned();
    s.append(decimal_text(index as u128).as_str());
    s.append(",\"content_block\":");
    s.append(block_json);
    s.append("}");
    frame("content_block_start", s.as_str())
}

/// Writes a `content_block_delta` frame.
pub fn block_delta_event(index: u32, delta_json: &str) -> (r: String)
    ensures
        r@ == sse("content_block_delta"@, block_delta_data(index as nat, delta_json@)),
{
    let mut s = "{\"type\":\"content_block_delta\",\"index\":".to_owned();
    s.append(decimal_text(index as u128).as_str());
    s.append(",\"delta\":");
    s.append(delta_json);
    s.append("}");
    frame("content_block_delta", s.as_str())
}

/// Writes a `content_block_stop` frame.
pub fn block_stop_event(index: u32) -> (r: String)
    ensures
        r@ == sse("content_block_stop"@, block_stop_data(index as nat)),
{
    let mut s = "{\"type\":\"content_block_stop\",\"index\":".to_owned();
    s.append(decimal_text(index as u128).as_str());
    s.append("}");
    frame("content_block_stop", s.as_str())
}

/// The message that a stream opens with: no content and no usage yet.
pub open spec fn opening_message(msg_id: Seq<char>, model: Seq<char>) -> JsonView {
    json::object_of(
        seq![
            ("type"@, JsonView::Str("message_start"@)),
            (
                "message"@,
                json::object_of(
                    seq![
                        ("id"@, JsonView::Str(msg_id)),
                        ("type"@, JsonView::Str("message"@)),
                        ("role"@, JsonView::Str("assistant"@)),
                        ("content"@, JsonView::Arr(Seq::empty())),
                        ("model"@, JsonView::Str(model)),
                        ("stop_reason"@, JsonView::Null),
                        ("stop_sequence"@, JsonView::Null),
                        ("usage"@, usage(0, 0)),
                    ],
                ),
            ),
        ],
    )
}

/// A usage object.
pub open spec fn usage(input_tokens: u64, output_tokens: u64) -> JsonView {
    json::object_of(
        seq![
            ("input_tokens"@, JsonView::Num(NumberView::Unsigned(input_tokens))),
            ("output_tokens"@, JsonView::Num(NumberView::Unsigned(output_tokens))),
        ],
    )
}

/// The data of a `message_delta` event.
pub open spec fn closing_delta(
    stop_reason: Seq<char>,
    input_tokens: u64,
    output_tokens: u64,
) -> JsonView {
    json::object_of(
        seq![
            ("type"@, JsonView::Str("message_delta"@)),
            (
                "delta"@,
                json::object_of(
                    seq![
                        ("stop_reason"@, JsonView::Str(stop_reason)),
                        ("stop_sequence"@, JsonView::Null),
                    ],
                ),
            ),
            ("usage"@, usage(input_tokens, output_tokens)),
        ],
    )
}

/// Builds a usage object.
pub fn usage_json(input_tokens: u64, output_tokens: u64) -> (r: Json)
    ensures
        r@ == usage(input_tokens, output_tokens),
{
    let entries: Vec<(String, Json)> = vec![
        ("input_tokens".to_owned(), Json::Num(Number::Unsigned(input_tokens))),
        ("output_tokens".to_owned(), Json::Num(Number::Unsigned(output_tokens))),
    ];
    assert(json::model_members(entries@) =~= seq![
        ("input_tokens"@, JsonView::Num(NumberView::Unsigned(input_tokens))),
        ("output_tokens"@, JsonView::Num(NumberView::Unsigned(output_tokens))),
    ]);
    object(entries)
}

/// Writes the `message_start` frame. Usage is unknown until the turn ends, so
/// it is 0 here; the totals arrive with `message_delta`.
pub fn message_start_event(msg_id: &str, model: &str) -> (r: String)
    ensures
        r@ == sse("message_start"@, opening_message(msg_id@, model@).text()),
{
    broadcast use {json::lemma_model_arr, json::lemma_model_obj};

    let no_content: Vec<Json> = Vec::new();
    let inner: Vec<(String, Json)> = vec![
        ("id".to_owned(), Json::Str(msg_id.to_owned())),
        ("type".to_owned(), Json::Str("message".to_owned())),
        ("role".to_owned(), Json::Str("assistant".to_owned())),
        ("content".to_owned(), Json::Arr(no_content)),
        ("model".to_owned(), Json::Str(model.to_owned())),
        ("stop_reason".to_owned(), Json::Null),
        ("stop_sequence".to_owned(), Json::Null),
        ("usage".to_owned(), usage_json(0, 0)),
    ];
    proof {
        assert(json::model_items(no_content@) =~= Seq::empty());
        assert(json::model_members(inner@) =~= seq![
            ("id"@, JsonView::Str(msg_id@)),
            ("type"@, JsonView::Str("message"@)),
            ("role"@, JsonView::Str("assistant"@)),
            ("content"@, JsonView::Arr(Seq::empty())),
            ("model"@, JsonView::Str(model@)),
            ("stop_reason"@, JsonView::Null),
            ("stop_sequence"@, JsonView::Null),
            ("usage"@, usage(0, 0)),
        ]);
    }
    let message = object(inner);
    let ghost message_view = message@;
    let outer: Vec<(String, Json)> = vec![
        ("type".to_owned(), Json::Str("message_start".to_owned())),
        ("message".to_owned(), message),
    ];
    assert(json::model_members(outer@) =~= seq![
        ("type"@, JsonView::Str("message_start"@)),
        ("message"@, message_view),
    ]);
    frame("message_start", to_text(&object(outer)).as_str())
}

/// Writes the `message_delta` frame.
pub fn message_delta_event(stop_reason: &str, input_tokens: u64, output_tokens: u64) -> (r: String)
    ensures
        r@ == sse(
            "message_delta"@,
            closing_delta(stop_reason@, input_tokens, output_tokens).text(),
        ),
{
    let inner: Vec<(String, Json)> = vec![
        ("stop_reason".to_owned(), Json::Str(stop_reason.to_owned())),
        ("stop_sequence".to_owned(), Json::Null),
    ];
    assert(json::model_members(inner@) =~= seq![
        ("stop_reason"@, JsonView::Str(stop_reason@)),
        ("stop_sequence"@, JsonView::Null),
    ]);
    let delta = object(inner);
    let ghost delta_view = delta@;
    let outer: Vec<(String, Json)> = vec![
        ("type".to_owned(), Json::Str("message_delta".to_owned())),
        ("delta".to_owned(), delta),
        ("usage".to_owned(), usage_json(input_tokens, output_tokens)),
    ];
    assert(json::model_members(outer@) =~= seq![
        ("type"@, JsonView::Str("message_delta"@)),
        ("delta"@, delta_view),
        ("usage"@, usage(input_tokens, output_tokens)),
    ]);
    frame("message_delta", to_text(&object(outer)).as_str())
}

/// Writes the `message_stop` frame.
pub fn message_stop_event() -> (r: String)
    ensures
        r@ == sse("message_stop"@, "{\"type\":\"message_stop\"}"@),
{
    frame("message_stop", "{\"type\":\"message_stop\"}")
}

/// One event of the blocks of a stream.
pub enum Event {
    /// A text block opens, or a thinking block.
    TextStart { index: nat, thinking: bool },
    /// More text for an open block.
    TextDelta { index: nat, thinking: bool, text: Seq<char> },
    /// A tool_use block opens.
    ToolStart { index: nat, call_id: Seq<char>, tool: Seq<char> },
    /// The input of the tool of an open block.
    ToolInput { index: nat, input: JsonView },
    /// A block closes.
    Stop { index: nat },
}

impl Event {
    /// The name of the event.
    pub open spec fn name(self) -> Seq<char> {
        match self {
            Event::TextStart { .. } => "content_block_start"@,
            Event::TextDelta { .. } => "content_block_delta"@,
            Event::ToolStart { .. } => "content_block_start"@,
            Event::ToolInput { .. } => "content_block_delta"@,
            Event::Stop { .. } => "content_block_stop"@,
        }
    }

    /// The data of the event.
    pub open spec fn data(self) -> Seq<char> {
        match self {
            Event::TextStart { index, thinking } => block_start_data(
                index,
                if thinking {
                    "{\"type\":\"thinking\",\"thinking\":\"\"}"@
                } else {
                    "{\"type\":\"text\",\"text\":\"\"}"@
                },
            ),
            Event::TextDelta { index, thinking, text } => block_delta_data(
                index,
                (if thinking {
                    "{\"type\":\"thinking_delta\",\"thinking\":\""@
                } else {
                    "{\"type\":\"text_delta\",\"text\":\""@
                }) + json_text::escaped(text) + "\"}"@,
            ),
            Event::ToolStart { index, call_id, tool } => block_start_data(
                index,
                "{\"type\":\"tool_use\",\"id\":\""@ + json_text::escaped(call_id) + "\",\"name\":\""@
                    + json_text::escaped(tool) + "\",\"input\":{}}"@,
            ),
            Event::ToolInput { index, input } => block_delta_data(
                index,
                "{\"type\":\"input_json_delta\",\"partial_json\":\""@ + json_text::escaped(
                    input.text(),
                ) + "\"}"@,
            ),
            Event::Stop { index } => block_stop_data(index),
        }
    }

    /// The frame of the event.
    pub open spec fn frame(self) -> Seq<char> {
        sse(self.name(), self.data())
    }
}

/// The frames of a list of events.
pub open spec fn frames(events: Seq<Event>) -> Seq<Seq<char>> {
    Seq::new(events.len(), |i: int| events[i].frame())
}

/// What a tracker knows of the blocks that a stream has opened.
pub struct TrackerView {
    /// The index that the next block gets.
    pub next_index: nat,
    /// The block of each part id.
    pub blocks: Map<Seq<char>, nat>,
    /// How many characters of the text of each part id were sent.
    pub emitted: Map<Seq<char>, nat>,
    /// The part ids whose tool_use block was opened.
    pub tools: Set<Seq<char>>,
    /// Whether any tool_use block was opened.
    pub saw_tool_use: bool,
}

impl TrackerView {
    /// A tracker that has seen nothing.
    pub open spec fn fresh() -> TrackerView {
        TrackerView {
            next_index: 0,
            blocks: Map::empty(),
            emitted: Map::empty(),
            tools: Set::empty(),
            saw_tool_use: false,
        }
    }

    /// The tracker after it has given the next index to the part `id`.
    pub open spec fn opened(self, id: Seq<char>) -> TrackerView {
        TrackerView {
            next_index: self.next_index + 1,
            blocks: self.blocks.insert(id, self.next_index),
            ..self
        }
    }

    /// How many characters of the text of the part `id` were sent.
    pub open spec fn shown(self, id: Seq<char>) -> nat {
        if self.emitted.contains_key(id) {
            self.emitted[id]
        } else {
            0
        }
    }
}

/// A text or reasoning part: its block opens on first sight, and then what
/// its text has grown by is sent. An empty text is passed over.
pub open spec fn diff_text(
    t: TrackerView,
    id: Seq<char>,
    thinking: bool,
    text: Seq<char>,
) -> (TrackerView, Seq<Event>) {
    if text.len() == 0 {
        (t, Seq::empty())
    } else {
        let known = t.blocks.contains_key(id);
        let t1 = if known {
            t
        } else {
            TrackerView { emitted: t.emitted.insert(id, 0), ..t.opened(id) }
        };
        let start = if known {
            Seq::empty()
        } else {
            seq![Event::TextStart { index: t.next_index, thinking }]
        };
        let shown = t1.shown(id);
        if text.len() > shown {
            (
                TrackerView { emitted: t1.emitted.insert(id, text.len()), ..t1 },
                start.push(
                    Event::TextDelta {
                        index: t1.blocks[id],
                        thinking,
                        text: text.skip(shown as int),
                    },
                ),
            )
        } else {
            (t1, start)
        }
    }
}

/// Whether the tool of a part has run to its end.
pub open spec fn settled(part: JsonView) -> bool {
    part.str_in("state"@, "status"@) == Some("completed"@) || part.str_in("state"@, "status"@)
        == Some("error"@)
}

/// The input of the tool of a part, an empty object where it has none.
pub open spec fn tool_input(part: JsonView) -> JsonView {
    match part.get_in("state"@, "input"@) {
        Some(input) => input,
        None => JsonView::Obj(Seq::empty()),
    }
}

/// A tool part: once it has settled, its block opens with the whole input.
pub open spec fn diff_tool(t: TrackerView, id: Seq<char>, part: JsonView) -> (
    TrackerView,
    Seq<Event>,
) {
    let call_id = part.str_or("callID"@, ""@);
    let tool = part.str_or("tool"@, ""@);
    if t.tools.contains(id) || !settled(part) || call_id.len() == 0 || tool.len() == 0 {
        (t, Seq::empty())
    } else {
        (
            TrackerView { tools: t.tools.insert(id), saw_tool_use: true, ..t.opened(id) },
            seq![
                Event::ToolStart { index: t.next_index, call_id, tool },
                Event::ToolInput { index: t.next_index, input: tool_input(part) },
            ],
        )
    }
}

/// What one part adds to a stream. A part without an id is passed over.
pub open spec fn diff_part(t: TrackerView, part: JsonView) -> (TrackerView, Seq<Event>) {
    let id = part.str_or("id"@, ""@);
    let kind = part.str_at("type"@);
    if id.len() == 0 {
        (t, Seq::empty())
    } else if kind == Some("text"@) || kind == Some("reasoning"@) {
        diff_text(t, id, kind == Some("reasoning"@), part.str_or("text"@, ""@))
    } else if kind == Some("tool"@) {
        diff_tool(t, id, part)
    } else {
        (t, Seq::empty())
    }
}

/// What the parts of a snapshot add to a stream, one after another.
pub open spec fn diff_parts(t: TrackerView, parts: Seq<JsonView>) -> (TrackerView, Seq<Event>)
    decreases parts.len(),
{
    if parts.len() == 0 {
        (t, Seq::empty())
    } else {
        let before = diff_parts(t, parts.drop_last());
        let last = diff_part(before.0, parts.last());
        (last.0, before.1 + last.1)
    }
}

/// Whether there is an index for every block that some parts open. There is
/// in any case where there is one for every part.
pub open spec fn has_room(t: TrackerView, parts: Seq<JsonView>) -> bool {
    t.next_index + parts.len() <= u32::MAX || diff_parts(t, parts).0.next_index <= u32::MAX
}

/// No part takes the next index back.
pub proof fn lemma_next_index_grows(t: TrackerView, parts: Seq<JsonView>, n: int)
    requires
        0 <= n <= parts.len(),
    ensures
        diff_parts(t, parts.take(n)).0.next_index <= diff_parts(t, parts).0.next_index,
    decreases parts.len(),
{
    if n == parts.len() {
        assert(parts.take(n) =~= parts);
    } else {
        lemma_next_index_grows(t, parts.drop_last(), n);
        assert(parts.drop_last().take(n) =~= parts.take(n));
    }
}

/// A snapshot takes at most one index for each of its parts.
pub proof fn lemma_next_index_bound(t: TrackerView, parts: Seq<JsonView>)
    ensures
        diff_parts(t, parts).0.next_index <= t.next_index + parts.len(),
    decreases parts.len(),
{
    if parts.len() > 0 {
        lemma_next_index_bound(t, parts.drop_last());
    }
}

/// Incremental state of one stream, keyed by native part `id`.
pub struct StreamTracker {
    next_index: u32,
    blocks: StringHashMap<u32>,
    emitted_len: StringHashMap<usize>,
    tool_opened: StringHashSet,
    pub saw_tool_use: bool,
}

impl View for StreamTracker {
    type V = TrackerView;

    closed spec fn view(&self) -> TrackerView {
        TrackerView {
            next_index: self.next_index as nat,
            blocks: self.blocks@.map_values(|n: u32| n as nat),
            emitted: self.emitted_len@.map_values(|n: usize| n as nat),
            tools: self.tool_opened@,
            saw_tool_use: self.saw_tool_use,
        }
    }
}

impl StreamTracker {
    /// A tracker that has seen nothing.
    pub fn new() -> (r: Self)
        ensures
            r@ == TrackerView::fresh(),
    {
        let r = StreamTracker {
            next_index: 0,
            blocks: StringHashMap::new(),
            emitted_len: StringHashMap::new(),
            tool_opened: StringHashSet::new(),
            saw_tool_use: false,
        };
        assert(r@.blocks =~= Map::empty());
        assert(r@.emitted =~= Map::empty());
        r
    }

    /// Open block indexes in first-seen order (for the final stop sweep).
    pub fn open_indexes(&self) -> (r: Vec<u32>)
        ensures
            r@.len() == self@.next_index,
            forall|i: int| 0 <= i < r@.len() ==> r@[i] == i,
    {
        let mut out: Vec<u32> = Vec::new();
        let mut i: u32 = 0;
        while i < self.next_index
            invariant
                i <= self.next_index,
                out@.len() == i,
                forall|k: int| 0 <= k < i ==> out@[k] == k,
            decreases self.next_index - i,
        {
            out.push(i);
            i += 1;
        }
        out
    }

    /// Gives the next index to the part `id`.
    fn open_block(&mut self, id: &str) -> (r: u32)
        requires
            old(self)@.next_index < u32::MAX,
        ensures
            final(self)@ == old(self)@.opened(id@),
            r == old(self)@.next_index,
    {
        let index: u32 = self.next_index;
        let ghost t0 = self@;
        self.blocks.insert(id.to_owned(), index);
        self.next_index = index + 1;
        assert(self@.blocks =~= t0.blocks.insert(id@, index as nat));
        index
    }
}

impl Default for StreamTracker {
    fn default() -> (r: Self)
        ensures
            r@ == TrackerView::fresh(),
    {
        StreamTracker::new()
    }
}

/// Adds one frame to a list.
proof fn lemma_one_frame(list: Seq<String>, s: String, e: Event)
    requires
        s@ == e.frame(),
    ensures
        text::views(list.push(s)) == text::views(list) + frames(seq![e]),
{
    assert(text::views(list.push(s)) =~= text::views(list) + frames(seq![e]));
}

/// The frames of two lists of events, one after the other.
pub proof fn lemma_frames_concat(a: Seq<Event>, b: Seq<Event>)
    ensures
        frames(a + b) == frames(a) + frames(b),
{
    assert(frames(a + b) =~= frames(a) + frames(b));
}

impl StreamTracker {
    /// Compares a text or reasoning part with what was sent of it.
    fn diff_text_part(&mut self, id: &str, thinking: bool, content: &str, out: &mut Vec<String>)
        requires
            diff_text(old(self)@, id@, thinking, content@).0.next_index <= u32::MAX,
        ensures
            final(self)@ == diff_text(old(self)@, id@, thinking, content@).0,
            text::views(final(out)@) == text::views(old(out)@) + frames(
                diff_text(old(self)@, id@, thinking, content@).1,
            ),
    {
        let ghost t0 = self@;
        let ghost out0 = text::views(out@);
        if content.is_empty() {
            assert(out0 + frames(Seq::empty()) =~= out0);
            return;
        }
        let known: Option<u32> = match self.blocks.get(id) {
            Some(n) => Some(*n),
            None => None,
        };
        let ghost start: Seq<Event> = if known is Some {
            Seq::empty()
        } else {
            seq![Event::TextStart { index: t0.next_index, thinking }]
        };
        let index: u32 = match known {
            Some(n) => {
                assert(out0 + frames(start) =~= out0);
                n
            },
            None => {
                let n: u32 = self.open_block(id);
                let ghost t1 = self@;
                self.emitted_len.insert(id.to_owned(), 0);
                assert(self@.emitted =~= t1.emitted.insert(id@, 0));
                let block: &str = if thinking {
                    "{\"type\":\"thinking\",\"thinking\":\"\"}"
                } else {
                    "{\"type\":\"text\",\"text\":\"\"}"
                };
                let s = block_start_event(n, block);
                proof {
                    lemma_one_frame(out@, s, Event::TextStart { index: n as nat, thinking });
                }
                out.push(s);
                n
            },
        };
        let ghost t2 = self@;
        let shown: usize = match self.emitted_len.get(id) {
            Some(n) => *n,
            None => 0,
        };
        assert(shown == t2.shown(id@));
        assert(index == t2.blocks[id@]);
        let len: usize = content.unicode_len();
        if len > shown {
            let delta = content.substring_char(shown, len);
            assert(delta@ =~= content@.skip(shown as int));
            self.emitted_len.insert(id.to_owned(), len);
            assert(self@.emitted =~= t2.emitted.insert(id@, len as nat));
            let mut body: String = if thinking {
                "{\"type\":\"thinking_delta\",\"thinking\":\"".to_owned()
            } else {
                "{\"type\":\"text_delta\",\"text\":\"".to_owned()
            };
            body.append(escape_json_string(delta).as_str());
            body.append("\"}");
            let s = block_delta_event(index, body.as_str());
            let ghost e = Event::TextDelta { index: index as nat, thinking, text: delta@ };
            proof {
                lemma_one_frame(out@, s, e);
                lemma_frames_concat(start, seq![e]);
                assert(start.push(e) =~= start + seq![e]);
            }
            out.push(s);
            assert(text::views(out@) =~= out0 + frames(start.push(e)));
        }
    }

    /// Compares a tool part with what was sent of it.
    fn diff_tool_part(&mut self, id: &str, part: &Json, out: &mut Vec<String>)
        requires
            diff_tool(old(self)@, id@, part@).0.next_index <= u32::MAX,
        ensures
            final(self)@ == diff_tool(old(self)@, id@, part@).0,
            text::views(final(out)@) == text::views(old(out)@) + frames(
                diff_tool(old(self)@, id@, part@).1,
            ),
    {
        broadcast use {json::lemma_model_arr, json::lemma_model_obj};

        let ghost out0 = text::views(out@);
        assert(out0 + frames(Seq::empty()) =~= out0);
        if self.tool_opened.contains(id) {
            return;
        }
        if !is_settled(part) {
            return;
        }
        let call_id = part.str_or("callID", "");
        let tool = part.str_or("tool", "");
        if call_id.is_empty() || tool.is_empty() {
            return;
        }
        let index: u32 = self.open_block(id);
        self.tool_opened.insert(id.to_owned());
        self.saw_tool_use = true;
        let mut block = "{\"type\":\"tool_use\",\"id\":\"".to_owned();
        block.append(escape_json_string(call_id).as_str());
        block.append("\",\"name\":\"");
        block.append(escape_json_string(tool).as_str());
        block.append("\",\"input\":{}}");
        let s = block_start_event(index, block.as_str());
        let ghost e1 = Event::ToolStart { index: index as nat, call_id: call_id@, tool: tool@ };
        proof {
            lemma_one_frame(out@, s, e1);
        }
        out.push(s);
        let input = to_text(&tool_input_json(part));
        let mut body = "{\"type\":\"input_json_delta\",\"partial_json\":\"".to_owned();
        body.append(escape_json_string(input.as_str()).as_str());
        body.append("\"}");
        let s = block_delta_event(index, body.as_str());
        let ghost e2 = Event::ToolInput { index: index as nat, input: tool_input(part@) };
        proof {
            lemma_one_frame(out@, s, e2);
            lemma_frames_concat(seq![e1], seq![e2]);
            assert(seq![e1, e2] =~= seq![e1] + seq![e2]);
        }
        out.push(s);
        assert(text::views(out@) =~= out0 + frames(seq![e1, e2]));
    }

    /// Compares one part with what was sent of it.
    fn diff_one_part(&mut self, part: &Json, out: &mut Vec<String>)
        requires
            diff_part(old(self)@, part@).0.next_index <= u32::MAX,
        ensures
            final(self)@ == diff_part(old(self)@, part@).0,
            text::views(final(out)@) == text::views(old(out)@) + frames(
                diff_part(old(self)@, part@).1,
            ),
    {
        let ghost out0 = text::views(out@);
        assert(out0 + frames(Seq::empty()) =~= out0);
        let id = part.str_or("id", "");
        if id.is_empty() {
            return;
        }
        if let Some(kind) = part.str_at("type") {
            if same(kind, "text") || same(kind, "reasoning") {
                self.diff_text_part(id, same(kind, "reasoning"), part.str_or("text", ""), out);
            } else if same(kind, "tool") {
                self.diff_tool_part(id, part, out);
            }
        }
    }
}

/// Whether the tool of a part has run to its end.
pub fn is_settled(part: &Json) -> (r: bool)
    ensures
        r == settled(part@),
{
    match part.str_in("state", "status") {
        Some(status) => same(status, "completed") || same(status, "error"),
        None => false,
    }
}

/// The input of the tool of a part, an empty object where it has none.
pub fn tool_input_json(part: &Json) -> (r: Json)
    ensures
        r@ == tool_input(part@),
{
    broadcast use {json::lemma_model_arr, json::lemma_model_obj};

    match part.get_in("state", "input") {
        Some(input) => input.clone(),
        None => {
            let none: Vec<(String, Json)> = Vec::new();
            assert(json::model_members(none@) =~= Seq::empty());
            Json::Obj(none)
        },
    }
}

impl StreamTracker {
    /// Whether there is an index for every block that some parts open.
    pub fn has_room_for(&self, parts: &[Json]) -> (r: bool)
        ensures
            r == has_room(self@, json::model_items(parts@)),
    {
        let ghost t0 = self@;
        let ghost all = json::model_items(parts@);
        proof {
            lemma_next_index_bound(t0, all);
        }
        let mut next: u32 = self.next_index;
        let mut new_blocks = StringHashSet::new();
        let mut new_tools = StringHashSet::new();
        let mut i: usize = 0;
        assert(t0.blocks.dom().union(new_blocks@) =~= t0.blocks.dom());
        assert(t0.tools.union(new_tools@) =~= t0.tools);
        while i < parts.len()
            invariant
                i <= parts@.len(),
                t0 == self@,
                all == json::model_items(parts@),
                diff_parts(t0, all.take(i as int)).0.next_index == next,
                diff_parts(t0, all.take(i as int)).0.blocks.dom() == t0.blocks.dom().union(
                    new_blocks@,
                ),
                diff_parts(t0, all.take(i as int)).0.tools == t0.tools.union(new_tools@),
                diff_parts(t0, all).0.next_index <= t0.next_index + all.len(),
            decreases parts@.len() - i,
        {
            let ghost t = diff_parts(t0, all.take(i as int)).0;
            let ghost now = diff_parts(t0, all.take(i + 1)).0;
            let part = &parts[i];
            proof {
                assert(all.take(i + 1).drop_last() =~= all.take(i as int));
                assert(all.take(i + 1).last() == part@);
                lemma_next_index_grows(t0, all, i + 1);
                reveal_strlit("tool");
                reveal_strlit("text");
                reveal_strlit("reasoning");
                assert("tool"@[1] != "text"@[1]);
                assert("tool"@[0] != "reasoning"@[0]);
            }
            let id = part.str_or("id", "");
            let known = self.blocks.contains_key(id) || new_blocks.contains(id);
            let tool_known = self.tool_opened.contains(id) || new_tools.contains(id);
            assert(known == t.blocks.contains_key(id@));
            assert(tool_known == t.tools.contains(id@));
            if !id.is_empty() && (opens_text(part) && !known || opens_tool(part) && !tool_known) {
                if next == u32::MAX {
                    return false;
                }
                next = next + 1;
                new_blocks.insert(id.to_owned());
                if opens_tool(part) {
                    new_tools.insert(id.to_owned());
                }
            }
            proof {
                assert(now.blocks.dom() =~= t0.blocks.dom().union(new_blocks@));
                assert(now.tools =~= t0.tools.union(new_tools@));
            }
            i += 1;
        }
        assert(all.take(all.len() as int) =~= all);
        true
    }
}

/// Whether a part is a text or reasoning part that is not empty.
fn opens_text(part: &Json) -> (r: bool)
    ensures
        r == ((part@.str_at("type"@) == Some("text"@) || part@.str_at("type"@) == Some(
            "reasoning"@,
        )) && part@.str_or("text"@, ""@).len() > 0),
{
    match part.str_at("type") {
        Some(kind) => (same(kind, "text") || same(kind, "reasoning")) && !part.str_or(
            "text",
            "",
        ).is_empty(),
        None => false,
    }
}

/// Whether a part is a tool part that has settled, with a call id and a tool.
fn opens_tool(part: &Json) -> (r: bool)
    ensures
        r == (part@.str_at("type"@) == Some("tool"@) && settled(part@) && part@.str_or(
            "callID"@,
            ""@,
        ).len() > 0 && part@.str_or("tool"@, ""@).len() > 0),
{
    match part.str_at("type") {
        Some(kind) => same(kind, "tool") && is_settled(part) && !part.str_or(
            "callID",
            "",
        ).is_empty() && !part.str_or("tool", "").is_empty(),
        None => false,
    }
}

/// Compares the parts of one snapshot with what was sent, and returns the
/// frames for newly opened blocks and for new text and tool input.
pub fn diff_turn_parts(tracker: &mut StreamTracker, parts: &[Json]) -> (r: Vec<String>)
    requires
        has_room(old(tracker)@, json::model_items(parts@)),
    ensures
        final(tracker)@ == diff_parts(old(tracker)@, json::model_items(parts@)).0,
        text::views(r@) == frames(diff_parts(old(tracker)@, json::model_items(parts@)).1),
{
    let ghost t0 = tracker@;
    let ghost all = json::model_items(parts@);
    proof {
        lemma_next_index_bound(t0, all);
    }
    let mut out: Vec<String> = Vec::new();
    let mut i: usize = 0;
    assert(text::views(out@) =~= frames(diff_parts(t0, all.take(0)).1));
    while i < parts.len()
        invariant
            i <= parts@.len(),
            all == json::model_items(parts@),
            tracker@ == diff_parts(t0, all.take(i as int)).0,
            text::views(out@) == frames(diff_parts(t0, all.take(i as int)).1),
            diff_parts(t0, all).0.next_index <= u32::MAX,
        decreases parts@.len() - i,
    {
        proof {
            assert(all.take(i + 1).drop_last() =~= all.take(i as int));
            assert(all.take(i + 1).last() == all[i as int]);
            lemma_next_index_grows(t0, all, i + 1);
            lemma_frames_concat(
                diff_parts(t0, all.take(i as int)).1,
                diff_part(tracker@, all[i as int]).1,
            );
        }
        tracker.diff_one_part(&parts[i], &mut out);
        i += 1;
    }
    assert(all.take(all.len() as int) =~= all);
    out
}

/// The closing events of `n` blocks, in index order.
pub open spec fn stops(n: nat) -> Seq<Event> {
    Seq::new(n, |i: int| Event::Stop { index: i as nat })
}

/// `content_block_stop` for every opened block, in index order.
pub fn stop_open_blocks(tracker: &mut StreamTracker) -> (r: Vec<String>)
    ensures
        *final(tracker) == *old(tracker),
        text::views(r@) == frames(stops(old(tracker)@.next_index)),
{
    let open = tracker.open_indexes();
    let ghost all = frames(stops(tracker@.next_index));
    let mut out: Vec<String> = Vec::new();
    let mut i: usize = 0;
    while i < open.len()
        invariant
            i <= open@.len(),
            open@.len() == tracker@.next_index,
            forall|k: int| 0 <= k < open@.len() ==> open@[k] == k,
            all == frames(stops(tracker@.next_index)),
            text::views(out@) == all.take(i as int),
        decreases open@.len() - i,
    {
        let ghost was = text::views(out@);
        out.push(block_stop_event(open[i]));
        assert(text::views(out@) =~= was.push(all[i as int]));
        i += 1;
        assert(text::views(out@) =~= all.take(i as int));
    }
    assert(text::views(out@) =~= all);
    out
}

} // verus!
