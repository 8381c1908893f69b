//! Laws of the event stream as a client sees it: what the frames of a stream
//! say, read back as JSON.

use crate::json;
use crate::json::{JsonView, NumberView};
use crate::json_text;
use crate::json_text::{escaped, members_text, quoted};
use crate::laws::replies::lemma_usage;
use crate::laws::values;
use crate::laws::values::{has_members, law_object_has_exactly_its_entries};
use crate::text::decimal;
use crate::transform::native_stream;
use crate::transform::native_stream::{closing_delta, diff_part, diff_parts, frames, opening_message};
use crate::transform::native_stream::{settled, stops, usage, Event, TrackerView};
use crate::transform::protocol;
use crate::transform::protocol::sent;
use vstd::prelude::*;

verus! {

/// Whether a string is written as it is.
spec fn plain(s: Seq<char>) -> bool {
    forall|i: int|
        0 <= i < s.len() ==> 0x20 <= (#[trigger] s[i]) as nat && s[i] != '"' && s[i] != '\\'
}

proof fn lemma_plain_quoted(s: Seq<char>)
    requires
        plain(s),
    ensures
        quoted(s) == seq!['"'] + s + seq!['"'],
        escaped(s) == s,
    decreases s.len(),
{
    if s.len() > 0 {
        let start = s.drop_last();
        assert forall|i: int| 0 <= i < start.len() implies 0x20 <= (#[trigger] start[i]) as nat
            && start[i] != '"' && start[i] != '\\' by {
            assert(start[i] == s[i]);
        }
        lemma_plain_quoted(start);
        let c = s[s.len() - 1];
        assert(json_text::escaped_char(c) =~= seq![c]);
        assert(start + seq![c] =~= s);
    } else {
        assert(s =~= Seq::empty());
    }
}

spec fn member_text(m: (Seq<char>, JsonView)) -> Seq<char> {
    quoted(m.0) + seq![':'] + m.1.text()
}

proof fn lemma_two_members(a: (Seq<char>, JsonView), b: (Seq<char>, JsonView))
    ensures
        JsonView::Obj(seq![a, b]).text() == seq!['{'] + member_text(a) + seq![','] + member_text(b)
            + seq!['}'],
{
    values::law_members_text_adds_up(seq![a], seq![b], a.0, a.1);
    values::law_members_text_adds_up(seq![a], seq![b], b.0, b.1);
    assert(seq![a] + seq![b] =~= seq![a, b]);
    assert(JsonView::Obj(seq![a, b]).text() =~= seq!['{'] + member_text(a) + seq![',']
        + member_text(b) + seq!['}']);
}

proof fn lemma_three_members(
    a: (Seq<char>, JsonView),
    b: (Seq<char>, JsonView),
    c: (Seq<char>, JsonView),
)
    ensures
        JsonView::Obj(seq![a, b, c]).text() == seq!['{'] + member_text(a) + seq![','] + member_text(
            b,
        ) + seq![','] + member_text(c) + seq!['}'],
{
    values::law_members_text_adds_up(seq![a], seq![b], a.0, a.1);
    values::law_members_text_adds_up(seq![a], seq![b], b.0, b.1);
    values::law_members_text_adds_up(seq![a, b], seq![c], c.0, c.1);
    assert(seq![a] + seq![b] =~= seq![a, b]);
    assert(seq![a, b] + seq![c] =~= seq![a, b, c]);
    assert(JsonView::Obj(seq![a, b, c]).text() =~= seq!['{'] + member_text(a) + seq![',']
        + member_text(b) + seq![','] + member_text(c) + seq!['}']);
}

proof fn lemma_four_members(
    a: (Seq<char>, JsonView),
    b: (Seq<char>, JsonView),
    c: (Seq<char>, JsonView),
    d: (Seq<char>, JsonView),
)
    ensures
        JsonView::Obj(seq![a, b, c, d]).text() == seq!['{'] + member_text(a) + seq![',']
            + member_text(b) + seq![','] + member_text(c) + seq![','] + member_text(d) + seq!['}'],
{
    values::law_members_text_adds_up(seq![a], seq![b], a.0, a.1);
    values::law_members_text_adds_up(seq![a], seq![b], b.0, b.1);
    values::law_members_text_adds_up(seq![a, b], seq![c], c.0, c.1);
    values::law_members_text_adds_up(seq![a, b, c], seq![d], d.0, d.1);
    assert(seq![a] + seq![b] =~= seq![a, b]);
    assert(seq![a, b] + seq![c] =~= seq![a, b, c]);
    assert(seq![a, b, c] + seq![d] =~= seq![a, b, c, d]);
    assert(JsonView::Obj(seq![a, b, c, d]).text() =~= seq!['{'] + member_text(a) + seq![',']
        + member_text(b) + seq![','] + member_text(c) + seq![','] + member_text(d) + seq!['}']);
}

proof fn lemma_delta_head(index: u64, inner: JsonView)
    ensures
        JsonView::Obj(
            seq![
                ("type"@, JsonView::Str("content_block_delta"@)),
                ("index"@, JsonView::Num(NumberView::Unsigned(index))),
                ("delta"@, inner),
            ],
        ).text() == "{\"type\":\"content_block_delta\",\"index\":"@ + decimal(index as nat) + ",\"delta\":"@ + inner.text() + "}"@,
{
    lemma_three_members(
        ("type"@, JsonView::Str("content_block_delta"@)),
        ("index"@, JsonView::Num(NumberView::Unsigned(index))),
        ("delta"@, inner),
    );
    reveal_strlit("type");
    reveal_strlit("index");
    reveal_strlit("content_block_delta");
    reveal_strlit("delta");
    reveal_strlit("{\"type\":\"content_block_delta\",\"index\":");
    reveal_strlit(",\"delta\":");
    reveal_strlit("}");
    lemma_plain_quoted("type"@);
    lemma_plain_quoted("index"@);
    lemma_plain_quoted("content_block_delta"@);
    lemma_plain_quoted("delta"@);
    let n = decimal(index as nat);
    let q = seq!['"'];
    assert("{\"type\":\"content_block_delta\",\"index\":"@ =~= seq!['{'] + (q + "type"@ + q + seq![':'] + (q + "content_block_delta"@ + q)) + seq![','] + (q
        + "index"@ + q + seq![':']));
    assert(",\"delta\":"@ =~= seq![','] + (q + "delta"@ + q + seq![':']));
    assert("}"@ =~= seq!['}']);
    assert("{\"type\":\"content_block_delta\",\"index\":"@ + n + ",\"delta\":"@ + inner.text() + "}"@ =~= seq!['{'] + (q + "type"@ + q + seq![':'] + (q
        + "content_block_delta"@ + q)) + seq![','] + (q + "index"@ + q + seq![':'] + n) + seq![','] + (q
        + "delta"@ + q + seq![':'] + inner.text()) + seq!['}']);
}

proof fn lemma_start_head(index: u64, inner: JsonView)
    ensures
        JsonView::Obj(
            seq![
                ("type"@, JsonView::Str("content_block_start"@)),
                ("index"@, JsonView::Num(NumberView::Unsigned(index))),
                ("content_block"@, inner),
            ],
        ).text() == "{\"type\":\"content_block_start\",\"index\":"@ + decimal(index as nat) + ",\"content_block\":"@ + inner.text() + "}"@,
{
    lemma_three_members(
        ("type"@, JsonView::Str("content_block_start"@)),
        ("index"@, JsonView::Num(NumberView::Unsigned(index))),
        ("content_block"@, inner),
    );
    reveal_strlit("type");
    reveal_strlit("index");
    reveal_strlit("content_block_start");
    reveal_strlit("content_block");
    reveal_strlit("{\"type\":\"content_block_start\",\"index\":");
    reveal_strlit(",\"content_block\":");
    reveal_strlit("}");
    lemma_plain_quoted("type"@);
    lemma_plain_quoted("index"@);
    lemma_plain_quoted("content_block_start"@);
    lemma_plain_quoted("content_block"@);
    let n = decimal(index as nat);
    let q = seq!['"'];
    assert("{\"type\":\"content_block_start\",\"index\":"@ =~= seq!['{'] + (q + "type"@ + q + seq![':'] + (q + "content_block_start"@ + q)) + seq![','] + (q
        + "index"@ + q + seq![':']));
    assert(",\"content_block\":"@ =~= seq![','] + (q + "content_block"@ + q + seq![':']));
    assert("}"@ =~= seq!['}']);
    assert("{\"type\":\"content_block_start\",\"index\":"@ + n + ",\"content_block\":"@ + inner.text() + "}"@ =~= seq!['{'] + (q + "type"@ + q + seq![':'] + (q
        + "content_block_start"@ + q)) + seq![','] + (q + "index"@ + q + seq![':'] + n) + seq![','] + (q
        + "content_block"@ + q + seq![':'] + inner.text()) + seq!['}']);
}

proof fn lemma_text_delta(s: Seq<char>)
    ensures
        JsonView::Obj(
            seq![("type"@, JsonView::Str("text_delta"@)), ("text"@, JsonView::Str(s))],
        ).text() == "{\"type\":\"text_delta\",\"text\":\""@ + escaped(s) + "\"}"@,
{
    lemma_two_members(("type"@, JsonView::Str("text_delta"@)), ("text"@, JsonView::Str(s)));
    reveal_strlit("type");
    reveal_strlit("text_delta");
    reveal_strlit("text");
    reveal_strlit("{\"type\":\"text_delta\",\"text\":\"");
    reveal_strlit("\"}");
    lemma_plain_quoted("type"@);
    lemma_plain_quoted("text_delta"@);
    lemma_plain_quoted("text"@);
    let q = seq!['"'];
    assert("{\"type\":\"text_delta\",\"text\":\""@ =~= seq!['{'] + (q + "type"@ + q + seq![':'] + (q + "text_delta"@ + q)) + seq![','] + (q
        + "text"@ + q + seq![':'] + q));
    assert("\"}"@ =~= q + seq!['}']);
    assert("{\"type\":\"text_delta\",\"text\":\""@ + escaped(s) + "\"}"@ =~= seq!['{'] + (q + "type"@ + q + seq![':'] + (q + "text_delta"@
        + q)) + seq![','] + (q + "text"@ + q + seq![':'] + (q + escaped(s) + q)) + seq!['}']);
}

proof fn lemma_thinking_delta(s: Seq<char>)
    ensures
        JsonView::Obj(
            seq![("type"@, JsonView::Str("thinking_delta"@)), ("thinking"@, JsonView::Str(s))],
        ).text() == "{\"type\":\"thinking_delta\",\"thinking\":\""@ + escaped(s) + "\"}"@,
{
    lemma_two_members(("type"@, JsonView::Str("thinking_delta"@)), ("thinking"@, JsonView::Str(s)));
    reveal_strlit("type");
    reveal_strlit("thinking_delta");
    reveal_strlit("thinking");
    reveal_strlit("{\"type\":\"thinking_delta\",\"thinking\":\"");
    reveal_strlit("\"}");
    lemma_plain_quoted("type"@);
    lemma_plain_quoted("thinking_delta"@);
    lemma_plain_quoted("thinking"@);
    let q = seq!['"'];
    assert("{\"type\":\"thinking_delta\",\"thinking\":\""@ =~= seq!['{'] + (q + "type"@ + q + seq![':'] + (q + "thinking_delta"@ + q)) + seq![','] + (q
        + "thinking"@ + q + seq![':'] + q));
    assert("\"}"@ =~= q + seq!['}']);
    assert("{\"type\":\"thinking_delta\",\"thinking\":\""@ + escaped(s) + "\"}"@ =~= seq!['{'] + (q + "type"@ + q + seq![':'] + (q + "thinking_delta"@
        + q)) + seq![','] + (q + "thinking"@ + q + seq![':'] + (q + escaped(s) + q)) + seq!['}']);
}

proof fn lemma_input_delta(s: Seq<char>)
    ensures
        JsonView::Obj(
            seq![("type"@, JsonView::Str("input_json_delta"@)), ("partial_json"@, JsonView::Str(s))],
        ).text() == "{\"type\":\"input_json_delta\",\"partial_json\":\""@ + escaped(s) + "\"}"@,
{
    lemma_two_members(("type"@, JsonView::Str("input_json_delta"@)), ("partial_json"@, JsonView::Str(s)));
    reveal_strlit("type");
    reveal_strlit("input_json_delta");
    reveal_strlit("partial_json");
    reveal_strlit("{\"type\":\"input_json_delta\",\"partial_json\":\"");
    reveal_strlit("\"}");
    lemma_plain_quoted("type"@);
    lemma_plain_quoted("input_json_delta"@);
    lemma_plain_quoted("partial_json"@);
    let q = seq!['"'];
    assert("{\"type\":\"input_json_delta\",\"partial_json\":\""@ =~= seq!['{'] + (q + "type"@ + q + seq![':'] + (q + "input_json_delta"@ + q)) + seq![','] + (q
        + "partial_json"@ + q + seq![':'] + q));
    assert("\"}"@ =~= q + seq!['}']);
    assert("{\"type\":\"input_json_delta\",\"partial_json\":\""@ + escaped(s) + "\"}"@ =~= seq!['{'] + (q + "type"@ + q + seq![':'] + (q + "input_json_delta"@
        + q)) + seq![','] + (q + "partial_json"@ + q + seq![':'] + (q + escaped(s) + q)) + seq!['}']);
}

proof fn lemma_text_block(s: Seq<char>)
    ensures
        JsonView::Obj(
            seq![("type"@, JsonView::Str("text"@)), ("text"@, JsonView::Str(s))],
        ).text() == "{\"type\":\"text\",\"text\":\""@ + escaped(s) + "\"}"@,
{
    lemma_two_members(("type"@, JsonView::Str("text"@)), ("text"@, JsonView::Str(s)));
    reveal_strlit("type");
    reveal_strlit("text");
    reveal_strlit("text");
    reveal_strlit("{\"type\":\"text\",\"text\":\"");
    reveal_strlit("\"}");
    lemma_plain_quoted("type"@);
    lemma_plain_quoted("text"@);
    lemma_plain_quoted("text"@);
    let q = seq!['"'];
    assert("{\"type\":\"text\",\"text\":\""@ =~= seq!['{'] + (q + "type"@ + q + seq![':'] + (q + "text"@ + q)) + seq![','] + (q
        + "text"@ + q + seq![':'] + q));
    assert("\"}"@ =~= q + seq!['}']);
    assert("{\"type\":\"text\",\"text\":\""@ + escaped(s) + "\"}"@ =~= seq!['{'] + (q + "type"@ + q + seq![':'] + (q + "text"@
        + q)) + seq![','] + (q + "text"@ + q + seq![':'] + (q + escaped(s) + q)) + seq!['}']);
}

proof fn lemma_thinking_block(s: Seq<char>)
    ensures
        JsonView::Obj(
            seq![("type"@, JsonView::Str("thinking"@)), ("thinking"@, JsonView::Str(s))],
        ).text() == "{\"type\":\"thinking\",\"thinking\":\""@ + escaped(s) + "\"}"@,
{
    lemma_two_members(("type"@, JsonView::Str("thinking"@)), ("thinking"@, JsonView::Str(s)));
    reveal_strlit("type");
    reveal_strlit("thinking");
    reveal_strlit("thinking");
    reveal_strlit("{\"type\":\"thinking\",\"thinking\":\"");
    reveal_strlit("\"}");
    lemma_plain_quoted("type"@);
    lemma_plain_quoted("thinking"@);
    lemma_plain_quoted("thinking"@);
    let q = seq!['"'];
    assert("{\"type\":\"thinking\",\"thinking\":\""@ =~= seq!['{'] + (q + "type"@ + q + seq![':'] + (q + "thinking"@ + q)) + seq![','] + (q
        + "thinking"@ + q + seq![':'] + q));
    assert("\"}"@ =~= q + seq!['}']);
    assert("{\"type\":\"thinking\",\"thinking\":\""@ + escaped(s) + "\"}"@ =~= seq!['{'] + (q + "type"@ + q + seq![':'] + (q + "thinking"@
        + q)) + seq![','] + (q + "thinking"@ + q + seq![':'] + (q + escaped(s) + q)) + seq!['}']);
}

proof fn lemma_tool_block(id: Seq<char>, name: Seq<char>)
    ensures
        JsonView::Obj(
            seq![
                ("type"@, JsonView::Str("tool_use"@)),
                ("id"@, JsonView::Str(id)),
                ("name"@, JsonView::Str(name)),
                ("input"@, JsonView::Obj(Seq::empty())),
            ],
        ).text() == "{\"type\":\"tool_use\",\"id\":\""@ + escaped(id) + "\",\"name\":\""@ + escaped(
            name,
        ) + "\",\"input\":{}}"@,
{
    let none = JsonView::Obj(Seq::empty());
    lemma_four_members(
        ("type"@, JsonView::Str("tool_use"@)),
        ("id"@, JsonView::Str(id)),
        ("name"@, JsonView::Str(name)),
        ("input"@, none),
    );
    reveal_strlit("type");
    reveal_strlit("tool_use");
    reveal_strlit("id");
    reveal_strlit("name");
    reveal_strlit("input");
    reveal_strlit("{\"type\":\"tool_use\",\"id\":\"");
    reveal_strlit("\",\"name\":\"");
    reveal_strlit("\",\"input\":{}}");
    lemma_plain_quoted("type"@);
    lemma_plain_quoted("tool_use"@);
    lemma_plain_quoted("id"@);
    lemma_plain_quoted("name"@);
    lemma_plain_quoted("input"@);
    let q = seq!['"'];
    assert(members_text(Seq::empty()) =~= Seq::empty());
    assert(none.text() =~= seq!['{', '}']);
    let a = seq!['{'] + (q + "type"@ + q + seq![':'] + (q + "tool_use"@ + q)) + seq![','] + (q + "id"@
        + q + seq![':'] + q);
    let b = q + seq![','] + (q + "name"@ + q + seq![':'] + q);
    let c = q + seq![','] + (q + "input"@ + q + seq![':'] + seq!['{', '}']) + seq!['}'];
    assert("{\"type\":\"tool_use\",\"id\":\""@ =~= a);
    assert("\",\"name\":\""@ =~= b);
    assert("\",\"input\":{}}"@ =~= c);
    assert(a + escaped(id) + b + escaped(name) + c =~= seq!['{'] + (q + "type"@ + q + seq![':'] + (q
        + "tool_use"@ + q)) + seq![','] + (q + "id"@ + q + seq![':'] + (q + escaped(id) + q)) + seq![
        ',',
    ] + (q + "name"@ + q + seq![':'] + (q + escaped(name) + q)) + seq![','] + (q + "input"@ + q
        + seq![':'] + seq!['{', '}']) + seq!['}']);
}

/// A frame of the stream that carries a JSON value.
pub open spec fn json_frame(event: Seq<char>, v: JsonView) -> Seq<char> {
    "event: "@ + event + "\n"@ + "data: "@ + v.text() + "\n"@ + "\n"@
}

proof fn lemma_json_frame(event: Seq<char>, v: JsonView)
    ensures
        native_stream::sse(event, v.text()) == json_frame(event, v),
{
    reveal_strlit("\ndata: ");
    reveal_strlit("data: ");
    reveal_strlit("\n");
    reveal_strlit("\n\n");
    assert(native_stream::sse(event, v.text()) =~= json_frame(event, v));
}

/// The frame of every event is the JSON value that the event stands for: a
/// delta carries its text, or the text of its input, whole and unchanged, and
/// a start the call and the tool.
pub proof fn law_frames_say_what_their_events_hold(e: Event)
    ensures
        e matches Event::TextDelta { index, thinking: false, text } ==> index <= u64::MAX
            ==> e.frame() == json_frame(
            "content_block_delta"@,
            JsonView::Obj(
                seq![
                    ("type"@, JsonView::Str("content_block_delta"@)),
                    ("index"@, JsonView::Num(NumberView::Unsigned(index as u64))),
                    (
                        "delta"@,
                        JsonView::Obj(
                            seq![
                                ("type"@, JsonView::Str("text_delta"@)),
                                ("text"@, JsonView::Str(text)),
                            ],
                        ),
                    ),
                ],
            ),
        ),
        e matches Event::TextDelta { index, thinking: true, text } ==> index <= u64::MAX
            ==> e.frame() == json_frame(
            "content_block_delta"@,
            JsonView::Obj(
                seq![
                    ("type"@, JsonView::Str("content_block_delta"@)),
                    ("index"@, JsonView::Num(NumberView::Unsigned(index as u64))),
                    (
                        "delta"@,
                        JsonView::Obj(
                            seq![
                                ("type"@, JsonView::Str("thinking_delta"@)),
                                ("thinking"@, JsonView::Str(text)),
                            ],
                        ),
                    ),
                ],
            ),
        ),
        e matches Event::ToolInput { index, input } ==> index <= u64::MAX ==> e.frame()
            == json_frame(
            "content_block_delta"@,
            JsonView::Obj(
                seq![
                    ("type"@, JsonView::Str("content_block_delta"@)),
                    ("index"@, JsonView::Num(NumberView::Unsigned(index as u64))),
                    (
                        "delta"@,
                        JsonView::Obj(
                            seq![
                                ("type"@, JsonView::Str("input_json_delta"@)),
                                ("partial_json"@, JsonView::Str(input.text())),
                            ],
                        ),
                    ),
                ],
            ),
        ),
        e matches Event::TextStart { index, thinking: false } ==> index <= u64::MAX ==> e.frame()
            == json_frame(
            "content_block_start"@,
            JsonView::Obj(
                seq![
                    ("type"@, JsonView::Str("content_block_start"@)),
                    ("index"@, JsonView::Num(NumberView::Unsigned(index as u64))),
                    (
                        "content_block"@,
                        JsonView::Obj(
                            seq![("type"@, JsonView::Str("text"@)), ("text"@, JsonView::Str(""@))],
                        ),
                    ),
                ],
            ),
        ),
        e matches Event::TextStart { index, thinking: true } ==> index <= u64::MAX ==> e.frame()
            == json_frame(
            "content_block_start"@,
            JsonView::Obj(
                seq![
                    ("type"@, JsonView::Str("content_block_start"@)),
                    ("index"@, JsonView::Num(NumberView::Unsigned(index as u64))),
                    (
                        "content_block"@,
                        JsonView::Obj(
                            seq![
                                ("type"@, JsonView::Str("thinking"@)),
                                ("thinking"@, JsonView::Str(""@)),
                            ],
                        ),
                    ),
                ],
            ),
        ),
        e matches Event::ToolStart { index, call_id, tool } ==> index <= u64::MAX ==> e.frame()
            == json_frame(
            "content_block_start"@,
            JsonView::Obj(
                seq![
                    ("type"@, JsonView::Str("content_block_start"@)),
                    ("index"@, JsonView::Num(NumberView::Unsigned(index as u64))),
                    (
                        "content_block"@,
                        JsonView::Obj(
                            seq![
                                ("type"@, JsonView::Str("tool_use"@)),
                                ("id"@, JsonView::Str(call_id)),
                                ("name"@, JsonView::Str(tool)),
                                ("input"@, JsonView::Obj(Seq::empty())),
                            ],
                        ),
                    ),
                ],
            ),
        ),
        e matches Event::Stop { index } ==> index <= u64::MAX ==> e.frame() == json_frame(
            "content_block_stop"@,
            JsonView::Obj(
                seq![
                    ("type"@, JsonView::Str("content_block_stop"@)),
                    ("index"@, JsonView::Num(NumberView::Unsigned(index as u64))),
                ],
            ),
        ),
{
    match e {
        Event::TextDelta { index, thinking, text } => {
            if index <= u64::MAX {
                lemma_text_delta(text);
                lemma_thinking_delta(text);
                let inner = if thinking {
                    JsonView::Obj(
                        seq![
                            ("type"@, JsonView::Str("thinking_delta"@)),
                            ("thinking"@, JsonView::Str(text)),
                        ],
                    )
                } else {
                    JsonView::Obj(
                        seq![
                            ("type"@, JsonView::Str("text_delta"@)),
                            ("text"@, JsonView::Str(text)),
                        ],
                    )
                };
                lemma_delta_frame(index as u64, inner, e);
            }
        },
        Event::ToolInput { index, input } => {
            if index <= u64::MAX {
                lemma_input_delta(input.text());
                let inner = JsonView::Obj(
                    seq![
                        ("type"@, JsonView::Str("input_json_delta"@)),
                        ("partial_json"@, JsonView::Str(input.text())),
                    ],
                );
                lemma_delta_frame(index as u64, inner, e);
            }
        },
        Event::TextStart { index, thinking } => {
            if index <= u64::MAX {
                reveal_strlit("");
                lemma_text_block(""@);
                lemma_thinking_block(""@);
                assert(escaped(""@) =~= Seq::empty());
                reveal_strlit("{\"type\":\"text\",\"text\":\"");
                reveal_strlit("{\"type\":\"text\",\"text\":\"\"}");
                reveal_strlit("{\"type\":\"thinking\",\"thinking\":\"");
                reveal_strlit("{\"type\":\"thinking\",\"thinking\":\"\"}");
                reveal_strlit("\"}");
                assert("{\"type\":\"text\",\"text\":\""@ + escaped(""@) + "\"}"@
                    =~= "{\"type\":\"text\",\"text\":\"\"}"@);
                assert("{\"type\":\"thinking\",\"thinking\":\""@ + escaped(""@) + "\"}"@
                    =~= "{\"type\":\"thinking\",\"thinking\":\"\"}"@);
                let inner = if thinking {
                    JsonView::Obj(
                        seq![
                            ("type"@, JsonView::Str("thinking"@)),
                            ("thinking"@, JsonView::Str(""@)),
                        ],
                    )
                } else {
                    JsonView::Obj(
                        seq![("type"@, JsonView::Str("text"@)), ("text"@, JsonView::Str(""@))],
                    )
                };
                lemma_start_frame(index as u64, inner, e);
            }
        },
        Event::ToolStart { index, call_id, tool } => {
            if index <= u64::MAX {
                lemma_tool_block(call_id, tool);
                let inner = JsonView::Obj(
                    seq![
                        ("type"@, JsonView::Str("tool_use"@)),
                        ("id"@, JsonView::Str(call_id)),
                        ("name"@, JsonView::Str(tool)),
                        ("input"@, JsonView::Obj(Seq::empty())),
                    ],
                );
                lemma_start_frame(index as u64, inner, e);
            }
        },
        Event::Stop { index } => {
            if index <= u64::MAX {
                lemma_stop_frame(index as u64);
            }
        },
    }
}

proof fn lemma_delta_frame(index: u64, inner: JsonView, e: Event)
    requires
        e.name() == "content_block_delta"@,
        e.data() == native_stream::block_delta_data(index as nat, inner.text()),
    ensures
        e.frame() == json_frame(
            "content_block_delta"@,
            JsonView::Obj(
                seq![
                    ("type"@, JsonView::Str("content_block_delta"@)),
                    ("index"@, JsonView::Num(NumberView::Unsigned(index))),
                    ("delta"@, inner),
                ],
            ),
        ),
{
    lemma_delta_head(index, inner);
    lemma_json_frame(
        "content_block_delta"@,
        JsonView::Obj(
            seq![
                ("type"@, JsonView::Str("content_block_delta"@)),
                ("index"@, JsonView::Num(NumberView::Unsigned(index))),
                ("delta"@, inner),
            ],
        ),
    );
}

proof fn lemma_start_frame(index: u64, inner: JsonView, e: Event)
    requires
        e.name() == "content_block_start"@,
        e.data() == native_stream::block_start_data(index as nat, inner.text()),
    ensures
        e.frame() == json_frame(
            "content_block_start"@,
            JsonView::Obj(
                seq![
                    ("type"@, JsonView::Str("content_block_start"@)),
                    ("index"@, JsonView::Num(NumberView::Unsigned(index))),
                    ("content_block"@, inner),
                ],
            ),
        ),
{
    lemma_start_head(index, inner);
    lemma_json_frame(
        "content_block_start"@,
        JsonView::Obj(
            seq![
                ("type"@, JsonView::Str("content_block_start"@)),
                ("index"@, JsonView::Num(NumberView::Unsigned(index))),
                ("content_block"@, inner),
            ],
        ),
    );
}

proof fn lemma_stop_frame(index: u64)
    ensures
        (Event::Stop { index: index as nat }).frame() == json_frame(
            "content_block_stop"@,
            JsonView::Obj(
                seq![
                    ("type"@, JsonView::Str("content_block_stop"@)),
                    ("index"@, JsonView::Num(NumberView::Unsigned(index))),
                ],
            ),
        ),
{
    let a = ("type"@, JsonView::Str("content_block_stop"@));
    let b = ("index"@, JsonView::Num(NumberView::Unsigned(index)));
    lemma_two_members(a, b);
    reveal_strlit("type");
    reveal_strlit("index");
    reveal_strlit("content_block_stop");
    reveal_strlit("{\"type\":\"content_block_stop\",\"index\":");
    reveal_strlit("}");
    lemma_plain_quoted("type"@);
    lemma_plain_quoted("index"@);
    lemma_plain_quoted("content_block_stop"@);
    let q = seq!['"'];
    let n = decimal(index as nat);
    assert("{\"type\":\"content_block_stop\",\"index\":"@ =~= seq!['{'] + (q + "type"@ + q + seq![
        ':',
    ] + (q + "content_block_stop"@ + q)) + seq![','] + (q + "index"@ + q + seq![':']));
    assert("{\"type\":\"content_block_stop\",\"index\":"@ + n + "}"@ =~= seq!['{'] + (q + "type"@
        + q + seq![':'] + (q + "content_block_stop"@ + q)) + seq![','] + (q + "index"@ + q + seq![':']
        + n) + seq!['}']);
    lemma_json_frame("content_block_stop"@, JsonView::Obj(seq![a, b]));
}

/// The frame that adds the text `s` to the block `n`.
pub open spec fn text_frame(n: u64, thinking: bool, s: Seq<char>) -> Seq<char> {
    json_frame(
        "content_block_delta"@,
        JsonView::Obj(
            seq![
                ("type"@, JsonView::Str("content_block_delta"@)),
                ("index"@, JsonView::Num(NumberView::Unsigned(n))),
                (
                    "delta"@,
                    if thinking {
                        JsonView::Obj(
                            seq![
                                ("type"@, JsonView::Str("thinking_delta"@)),
                                ("thinking"@, JsonView::Str(s)),
                            ],
                        )
                    } else {
                        JsonView::Obj(
                            seq![
                                ("type"@, JsonView::Str("text_delta"@)),
                                ("text"@, JsonView::Str(s)),
                            ],
                        )
                    },
                ),
            ],
        ),
    )
}

/// Whether a frame adds the text `s` to the block `n`.
pub open spec fn adds_text(frame: Seq<char>, n: u64, s: Seq<char>) -> bool {
    frame == text_frame(n, false, s) || frame == text_frame(n, true, s)
}

/// The text that a client has for the block `n` when it reads some frames and
/// puts the texts that they add together.
pub open spec fn client_text(frames: Seq<Seq<char>>, n: u64) -> Seq<char>
    decreases frames.len(),
{
    if frames.len() == 0 {
        Seq::empty()
    } else {
        let before = client_text(frames.drop_last(), n);
        let frame = frames.last();
        if exists|s: Seq<char>| adds_text(frame, n, s) {
            before + choose|s: Seq<char>| adds_text(frame, n, s)
        } else {
            before
        }
    }
}

proof fn lemma_until_comma(a: Seq<char>, b: Seq<char>, x: Seq<char>, y: Seq<char>)
    requires
        forall|i: int| 0 <= i < a.len() ==> #[trigger] a[i] != ',',
        forall|i: int| 0 <= i < b.len() ==> #[trigger] b[i] != ',',
        x.len() > 0,
        y.len() > 0,
        x[0] == ',',
        y[0] == ',',
        a + x == b + y,
    ensures
        a == b,
        x == y,
{
    if a.len() < b.len() {
        assert((a + x)[a.len() as int] == ',');
        assert((b + y)[a.len() as int] == b[a.len() as int]);
    }
    if b.len() < a.len() {
        assert((b + y)[b.len() as int] == ',');
        assert((a + x)[b.len() as int] == a[b.len() as int]);
    }
    assert forall|i: int| 0 <= i < a.len() implies a[i] == b[i] by {
        assert((a + x)[i] == a[i]);
        assert((b + y)[i] == b[i]);
    }
    assert(a =~= b);
    assert((a + x).len() == a.len() + x.len());
    assert((b + y).len() == b.len() + y.len());
    assert forall|i: int| 0 <= i < x.len() implies x[i] == y[i] by {
        assert((a + x)[a.len() + i] == x[i]);
        assert((b + y)[b.len() + i] == y[i]);
    }
    assert(x =~= y);
}

/// The frame of a delta, as what stands before its index, the index, and what
/// stands after it.
proof fn lemma_delta_layout(index: nat, body: Seq<char>)
    ensures
        native_stream::sse(
            "content_block_delta"@,
            native_stream::block_delta_data(index, body),
        ) == ("event: "@ + "content_block_delta"@ + "\ndata: "@
            + "{\"type\":\"content_block_delta\",\"index\":"@) + (decimal(index) + (
        ",\"delta\":"@ + body + "}\n\n"@)),
{
    reveal_strlit("}\n\n");
    reveal_strlit("}");
    reveal_strlit("\n\n");
    assert("}\n\n"@ =~= "}"@ + "\n\n"@);
    assert(native_stream::sse(
        "content_block_delta"@,
        native_stream::block_delta_data(index, body),
    ) =~= ("event: "@ + "content_block_delta"@ + "\ndata: "@
        + "{\"type\":\"content_block_delta\",\"index\":"@) + (decimal(index) + (",\"delta\":"@ + body
        + "}\n\n"@)));
}

proof fn lemma_same_rest(p: Seq<char>, a: Seq<char>, b: Seq<char>)
    requires
        p + a == p + b,
    ensures
        a == b,
{
    assert((p + a).len() == p.len() + a.len());
    assert((p + b).len() == p.len() + b.len());
    assert forall|i: int| 0 <= i < a.len() implies a[i] == b[i] by {
        assert((p + a)[p.len() + i] == a[i]);
        assert((p + b)[p.len() + i] == b[i]);
    }
    assert(a =~= b);
}

proof fn lemma_same_middle(p: Seq<char>, a: Seq<char>, b: Seq<char>, q: Seq<char>)
    requires
        p + a + q == p + b + q,
    ensures
        a == b,
{
    assert((p + a + q).len() == p.len() + a.len() + q.len());
    assert((p + b + q).len() == p.len() + b.len() + q.len());
    assert forall|i: int| 0 <= i < a.len() implies a[i] == b[i] by {
        assert((p + a + q)[p.len() + i] == a[i]);
        assert((p + b + q)[p.len() + i] == b[i]);
    }
    assert(a =~= b);
}

/// The body of a delta event.
spec fn delta_body(e: Event) -> Seq<char> {
    match e {
        Event::TextDelta { thinking, text, .. } => (if thinking {
            "{\"type\":\"thinking_delta\",\"thinking\":\""@
        } else {
            "{\"type\":\"text_delta\",\"text\":\""@
        }) + escaped(text) + "\"}"@,
        Event::ToolInput { input, .. } => "{\"type\":\"input_json_delta\",\"partial_json\":\""@
            + escaped(input.text()) + "\"}"@,
        _ => Seq::empty(),
    }
}

proof fn lemma_text_frames_differ(e: Event, f: Event)
    requires
        f is TextDelta,
        e.frame() == f.frame(),
    ensures
        e == f,
{
    let head = "event: "@ + "content_block_delta"@ + "\ndata: "@
        + "{\"type\":\"content_block_delta\",\"index\":"@;
    reveal_strlit("event: ");
    reveal_strlit("content_block_delta");
    reveal_strlit("content_block_start");
    reveal_strlit("content_block_stop");
    assert(f.frame()[21] == 'd') by {
        assert(f.frame()[21] == "content_block_delta"@[14]);
    }
    match e {
        Event::TextStart { .. } => {
            assert(e.frame()[21] == "content_block_start"@[14]);
        },
        Event::ToolStart { .. } => {
            assert(e.frame()[21] == "content_block_start"@[14]);
        },
        Event::Stop { .. } => {
            assert(e.frame()[21] == "content_block_stop"@[14]);
        },
        _ => {
            let m = f->TextDelta_index;
            let k = protocol::delta_index(e)->Some_0;
            let x = ",\"delta\":"@ + delta_body(e) + "}\n\n"@;
            let y = ",\"delta\":"@ + delta_body(f) + "}\n\n"@;
            lemma_delta_layout(k, delta_body(e));
            lemma_delta_layout(m, delta_body(f));
            lemma_same_rest(head, decimal(k) + x, decimal(m) + y);
            reveal_strlit(",\"delta\":");
            values::law_numeral_reads_back(k, 10);
            values::law_numeral_reads_back(m, 10);
            assert forall|i: int| 0 <= i < decimal(k).len() implies #[trigger] decimal(k)[i]
                != ',' by {}
            assert forall|i: int| 0 <= i < decimal(m).len() implies #[trigger] decimal(m)[i]
                != ',' by {}
            lemma_until_comma(decimal(k), decimal(m), x, y);
            assert(k == m);
            lemma_same_middle(",\"delta\":"@, delta_body(e), delta_body(f), "}\n\n"@);
            reveal_strlit("{\"type\":\"thinking_delta\",\"thinking\":\"");
            reveal_strlit("{\"type\":\"text_delta\",\"text\":\"");
            reveal_strlit("{\"type\":\"input_json_delta\",\"partial_json\":\"");
            let thinking = f->TextDelta_thinking;
            let s = f->TextDelta_text;
            assert(delta_body(f)[9] == 't');
            assert(delta_body(f)[10] == (if thinking {
                'h'
            } else {
                'e'
            }));
            if e is ToolInput {
                assert(delta_body(e)[9] == 'i');
            } else {
                let other = e->TextDelta_text;
                assert(delta_body(e)[10] == (if e->TextDelta_thinking {
                    'h'
                } else {
                    'e'
                }));
                assert(e->TextDelta_thinking == thinking);
                let lead = if thinking {
                    "{\"type\":\"thinking_delta\",\"thinking\":\""@
                } else {
                    "{\"type\":\"text_delta\",\"text\":\""@
                };
                lemma_same_middle(lead, escaped(other), escaped(s), "\"}"@);
                json_text::law_unescaping_undoes_escaping(other);
                json_text::law_unescaping_undoes_escaping(s);
            }
        },
    }
}

/// A client that reads the frames of some events back has, for every block,
/// the texts of its deltas, one after another.
pub proof fn law_frames_are_read_back(events: Seq<Event>, n: u64)
    ensures
        client_text(frames(events), n) == sent(events, n as nat),
    decreases events.len(),
{
    if events.len() > 0 {
        let start = events.drop_last();
        let e = events.last();
        law_frames_are_read_back(start, n);
        assert(frames(events).drop_last() =~= frames(start));
        assert(frames(events).last() == e.frame());
        assert forall|s: Seq<char>| #[trigger] adds_text(e.frame(), n, s) implies (e
            matches Event::TextDelta { index, text, .. } && index == n && text == s) by {
            let plain_event = Event::TextDelta { index: n as nat, thinking: false, text: s };
            let thinking_event = Event::TextDelta { index: n as nat, thinking: true, text: s };
            law_frames_say_what_their_events_hold(plain_event);
            law_frames_say_what_their_events_hold(thinking_event);
            if e.frame() == text_frame(n, false, s) {
                lemma_text_frames_differ(e, plain_event);
            } else {
                lemma_text_frames_differ(e, thinking_event);
            }
        }
        if let Event::TextDelta { index, thinking, text } = e {
            if index == n {
                law_frames_say_what_their_events_hold(e);
                assert(adds_text(e.frame(), n, text));
            }
        }
    }
}

/// A client that reads the frames of a stream back as JSON, and puts the texts
/// of the deltas of a block together, has the whole text of its part: every
/// delta is exactly what the text has grown by. `parts` are the parts of all
/// readings, one reading after another, and the `i`th of them is the last one
/// with its id.
pub proof fn law_client_has_the_whole_text(parts: Seq<JsonView>, i: int, id: Seq<char>, s: Seq<char>)
    requires
        0 <= i < parts.len(),
        protocol::latest(parts, i),
        protocol::grows(parts, id),
        parts[i].get("id"@) == Some(JsonView::Str(id)),
        parts[i].get("text"@) == Some(JsonView::Str(s)),
        s.len() > 0,
        diff_parts(TrackerView::fresh(), parts).0.next_index <= u32::MAX,
    ensures
        diff_parts(TrackerView::fresh(), parts).0.blocks.contains_key(id),
        client_text(
            frames(diff_parts(TrackerView::fresh(), parts).1),
            diff_parts(TrackerView::fresh(), parts).0.blocks[id] as u64,
        ) == s,
{
    let d = diff_parts(TrackerView::fresh(), parts);
    protocol::law_text_is_sent_whole(parts, i);
    protocol::law_blocks_are_not_shared(TrackerView::fresh(), parts);
    let n = d.0.blocks[id];
    assert(d.0.blocks.contains_key(id));
    assert(n < d.0.next_index);
    law_frames_are_read_back(d.1, n as u64);
}

/// A text that has not grown sends nothing, and changes nothing.
pub proof fn law_no_growth_sends_nothing(t: TrackerView, part: JsonView, id: Seq<char>, s: Seq<char>)
    requires
        part.get("id"@) == Some(JsonView::Str(id)),
        part.get("text"@) == Some(JsonView::Str(s)),
        part.get("type"@) == Some(JsonView::Str("text"@)) || part.get("type"@) == Some(
            JsonView::Str("reasoning"@),
        ),
        t.blocks.contains_key(id),
        t.emitted.contains_key(id),
        s.len() <= t.emitted[id],
    ensures
        diff_part(t, part) == (t, Seq::<Event>::empty()),
{
}

/// A reading of one part is that part, and one of no parts is nothing.
pub proof fn law_reading_of_one_part(t: TrackerView, part: JsonView)
    ensures
        diff_parts(t, seq![part]) == diff_part(t, part),
        diff_parts(t, Seq::<JsonView>::empty()) == (t, Seq::<Event>::empty()),
{
    assert(seq![part].drop_last() =~= Seq::empty());
    assert(diff_parts(t, seq![part].drop_last()) == (t, Seq::<Event>::empty()));
    assert(Seq::<Event>::empty() + diff_part(t, part).1 =~= diff_part(t, part).1);
}

/// What a part that has grown adds: exactly the part of its text that was not
/// sent yet, in a frame for its block and of its kind.
pub proof fn law_growth_is_sent(
    t: TrackerView,
    part: JsonView,
    id: Seq<char>,
    old_text: Seq<char>,
    more: Seq<char>,
    thinking: bool,
)
    requires
        id.len() > 0,
        more.len() > 0,
        part.get("id"@) == Some(JsonView::Str(id)),
        part.get("text"@) == Some(JsonView::Str(old_text + more)),
        part.get("type"@) == Some(
            JsonView::Str(
                if thinking {
                    "reasoning"@
                } else {
                    "text"@
                },
            ),
        ),
        t.blocks.contains_key(id),
        t.blocks[id] <= u64::MAX,
        t.emitted.contains_key(id),
        t.emitted[id] == old_text.len(),
    ensures
        frames(diff_part(t, part).1) == seq![text_frame(t.blocks[id] as u64, thinking, more)],
        diff_part(t, part).0.emitted[id] == (old_text + more).len(),
{
    assert((old_text + more).skip(old_text.len() as int) =~= more);
    reveal_strlit("text");
    reveal_strlit("reasoning");
    assert("text"@.len() == 4);
    assert("reasoning"@.len() == 9);
    let e = Event::TextDelta { index: t.blocks[id], thinking, text: more };
    law_frames_say_what_their_events_hold(e);
    assert(diff_part(t, part).1 =~= seq![e]);
    assert(frames(seq![e]) =~= seq![e.frame()]);
}

/// The deltas and starts of a part are of its kind: thinking for a reasoning
/// part, text for a text part, a tool for a tool part.
pub proof fn law_events_have_the_kind_of_their_part(t: TrackerView, part: JsonView, k: int)
    requires
        0 <= k < diff_part(t, part).1.len(),
    ensures
        part.get("type"@) == Some(JsonView::Str("text"@)) ==> {
            ||| diff_part(t, part).1[k] matches Event::TextStart { thinking: false, .. }
            ||| diff_part(t, part).1[k] matches Event::TextDelta { thinking: false, .. }
        },
        part.get("type"@) == Some(JsonView::Str("reasoning"@)) ==> {
            ||| diff_part(t, part).1[k] matches Event::TextStart { thinking: true, .. }
            ||| diff_part(t, part).1[k] matches Event::TextDelta { thinking: true, .. }
        },
        part.get("type"@) == Some(JsonView::Str("tool"@)) ==> diff_part(t, part).1[k] is ToolStart
            || diff_part(t, part).1[k] is ToolInput,
{
    reveal_strlit("text");
    reveal_strlit("reasoning");
    reveal_strlit("tool");
    assert("text"@.len() == 4);
    assert("reasoning"@.len() == 9);
    assert("tool"@.len() == 4);
    assert("text"@[1] != "tool"@[1]);
}

/// Other parts send nothing: parts without an id, parts of another type, empty
/// ones, and tool parts that have not settled or have no call id or tool.
pub proof fn law_other_parts_send_nothing(t: TrackerView, part: JsonView)
    ensures
        (part.get("id"@) matches Some(JsonView::Str(s)) ==> s.len() == 0) ==> diff_part(t, part)
            == (t, Seq::<Event>::empty()),
        part.get("type"@) != Some(JsonView::Str("text"@)) && part.get("type"@) != Some(
            JsonView::Str("reasoning"@),
        ) && part.get("type"@) != Some(JsonView::Str("tool"@)) ==> diff_part(t, part) == (
            t,
            Seq::<Event>::empty(),
        ),
        part.get("type"@) != Some(JsonView::Str("tool"@)) && (part.get("text"@) matches Some(
            JsonView::Str(s),
        ) ==> s.len() == 0) ==> diff_part(t, part) == (t, Seq::<Event>::empty()),
        part.get("type"@) == Some(JsonView::Str("tool"@)) && part.get_in("state"@, "status"@)
            != Some(JsonView::Str("completed"@)) && part.get_in("state"@, "status"@) != Some(
            JsonView::Str("error"@),
        ) ==> diff_part(t, part) == (t, Seq::<Event>::empty()),
        part.get("type"@) == Some(JsonView::Str("tool"@)) && (part.get("callID"@) matches Some(
            JsonView::Str(s),
        ) ==> s.len() == 0) ==> diff_part(t, part) == (t, Seq::<Event>::empty()),
        part.get("type"@) == Some(JsonView::Str("tool"@)) && (part.get("tool"@) matches Some(
            JsonView::Str(s),
        ) ==> s.len() == 0) ==> diff_part(t, part) == (t, Seq::<Event>::empty()),
{
    reveal_strlit("");
    reveal_strlit("text");
    reveal_strlit("reasoning");
    reveal_strlit("tool");
    assert("text"@.len() == 4);
    assert("reasoning"@.len() == 9);
    assert("tool"@.len() == 4);
    assert("text"@[1] != "tool"@[1]);
}

/// A tool that has completed or failed is sent when its part is shown first:
/// its call, its tool and its whole input, in a block of its own.
pub proof fn law_settled_tool_is_sent(
    t: TrackerView,
    part: JsonView,
    id: Seq<char>,
    call_id: Seq<char>,
    tool: Seq<char>,
)
    requires
        id.len() > 0,
        call_id.len() > 0,
        tool.len() > 0,
        part.get("id"@) == Some(JsonView::Str(id)),
        part.get("type"@) == Some(JsonView::Str("tool"@)),
        part.get("callID"@) == Some(JsonView::Str(call_id)),
        part.get("tool"@) == Some(JsonView::Str(tool)),
        part.get_in("state"@, "status"@) == Some(JsonView::Str("completed"@)) || part.get_in(
            "state"@,
            "status"@,
        ) == Some(JsonView::Str("error"@)),
        !t.tools.contains(id),
    ensures
        diff_part(t, part).1 == seq![
            Event::ToolStart { index: t.next_index, call_id, tool },
            Event::ToolInput {
                index: t.next_index,
                input: match part.get_in("state"@, "input"@) {
                    Some(input) => input,
                    None => JsonView::Obj(Seq::empty()),
                },
            },
        ],
        diff_part(t, part).0.next_index == t.next_index + 1,
        diff_part(t, part).0.saw_tool_use,
{
    reveal_strlit("text");
    reveal_strlit("reasoning");
    reveal_strlit("tool");
    assert("text"@.len() == 4);
    assert("reasoning"@.len() == 9);
    assert("tool"@.len() == 4);
    assert("text"@[1] != "tool"@[1]);
    assert(settled(part));
}

/// A stream begins with no block, and nothing sent.
pub proof fn law_a_new_tracker_knows_nothing()
    ensures
        TrackerView::fresh().next_index == 0,
        TrackerView::fresh().blocks == Map::<Seq<char>, nat>::empty(),
        TrackerView::fresh().emitted == Map::<Seq<char>, nat>::empty(),
        TrackerView::fresh().tools == Set::<Seq<char>>::empty(),
        !TrackerView::fresh().saw_tool_use,
{
}

/// The stops of a stream are one for each block that was opened, by its index.
pub proof fn law_stops_name_every_block(n: nat, i: int)
    requires
        0 <= i < n,
    ensures
        stops(n).len() == n,
        stops(n)[i] == (Event::Stop { index: i as nat }),
{
}

/// The event that opens a stream names the message and its model, and has no
/// content and no tokens yet.
pub proof fn law_opening_names_the_message(msg_id: Seq<char>, model: Seq<char>)
    ensures
        ({
            let v = opening_message(msg_id, model);
            let m = v.get("message"@)->Some_0;
            &&& v.get("message"@) is Some
            &&& has_members(v, seq![("type"@, JsonView::Str("message_start"@)), ("message"@, m)])
            &&& m.get("usage"@) is Some
            &&& has_members(
                m,
                seq![
                    ("id"@, JsonView::Str(msg_id)),
                    ("type"@, JsonView::Str("message"@)),
                    ("role"@, JsonView::Str("assistant"@)),
                    ("content"@, JsonView::Arr(Seq::empty())),
                    ("model"@, JsonView::Str(model)),
                    ("stop_reason"@, JsonView::Null),
                    ("stop_sequence"@, JsonView::Null),
                    ("usage"@, m.get("usage"@)->Some_0),
                ],
            )
            &&& has_members(
                m.get("usage"@)->Some_0,
                seq![
                    ("input_tokens"@, JsonView::Num(NumberView::Unsigned(0))),
                    ("output_tokens"@, JsonView::Num(NumberView::Unsigned(0))),
                ],
            )
        }),
{
    reveal_strlit("id");
    reveal_strlit("type");
    reveal_strlit("role");
    reveal_strlit("content");
    reveal_strlit("model");
    reveal_strlit("stop_reason");
    reveal_strlit("stop_sequence");
    reveal_strlit("usage");
    reveal_strlit("message");
    assert("id"@.len() == 2);
    assert("type"@.len() == 4);
    assert("role"@.len() == 4);
    assert("content"@.len() == 7);
    assert("model"@.len() == 5);
    assert("stop_reason"@.len() == 11);
    assert("stop_sequence"@.len() == 13);
    assert("usage"@.len() == 5);
    assert("message"@.len() == 7);
    assert("type"@[0] != "role"@[0]);
    assert("content"@[0] != "message"@[0]);
    assert("model"@[0] != "usage"@[0]);
    lemma_usage(0, 0);
    let inner = seq![
        ("id"@, JsonView::Str(msg_id)),
        ("type"@, JsonView::Str("message"@)),
        ("role"@, JsonView::Str("assistant"@)),
        ("content"@, JsonView::Arr(Seq::empty())),
        ("model"@, JsonView::Str(model)),
        ("stop_reason"@, JsonView::Null),
        ("stop_sequence"@, JsonView::Null),
        ("usage"@, usage(0, 0)),
    ];
    law_object_has_exactly_its_entries(inner);
    assert(inner[7] == ("usage"@, usage(0, 0)));
    let outer = seq![
        ("type"@, JsonView::Str("message_start"@)),
        ("message"@, json::object_of(inner)),
    ];
    law_object_has_exactly_its_entries(outer);
    assert(outer[1] == ("message"@, json::object_of(inner)));
}

/// The event before the last tells the stop reason and the tokens as they are.
pub proof fn law_closing_tells_reason_and_tokens(
    reason: Seq<char>,
    input_tokens: u64,
    output_tokens: u64,
)
    ensures
        ({
            let v = closing_delta(reason, input_tokens, output_tokens);
            let d = v.get("delta"@)->Some_0;
            let u = v.get("usage"@)->Some_0;
            &&& v.get("delta"@) is Some
            &&& v.get("usage"@) is Some
            &&& has_members(
                v,
                seq![("type"@, JsonView::Str("message_delta"@)), ("delta"@, d), ("usage"@, u)],
            )
            &&& has_members(
                d,
                seq![("stop_reason"@, JsonView::Str(reason)), ("stop_sequence"@, JsonView::Null)],
            )
            &&& has_members(
                u,
                seq![
                    ("input_tokens"@, JsonView::Num(NumberView::Unsigned(input_tokens))),
                    ("output_tokens"@, JsonView::Num(NumberView::Unsigned(output_tokens))),
                ],
            )
        }),
{
    reveal_strlit("type");
    reveal_strlit("delta");
    reveal_strlit("usage");
    reveal_strlit("stop_reason");
    reveal_strlit("stop_sequence");
    assert("type"@.len() == 4);
    assert("delta"@.len() == 5);
    assert("usage"@.len() == 5);
    assert("stop_reason"@.len() == 11);
    assert("stop_sequence"@.len() == 13);
    assert("delta"@[0] != "usage"@[0]);
    lemma_usage(input_tokens, output_tokens);
    let inner = seq![("stop_reason"@, JsonView::Str(reason)), ("stop_sequence"@, JsonView::Null)];
    law_object_has_exactly_its_entries(inner);
    let outer = seq![
        ("type"@, JsonView::Str("message_delta"@)),
        ("delta"@, json::object_of(inner)),
        ("usage"@, usage(input_tokens, output_tokens)),
    ];
    law_object_has_exactly_its_entries(outer);
    assert(outer[1] == ("delta"@, json::object_of(inner)));
    assert(outer[2] == ("usage"@, usage(input_tokens, output_tokens)));
}

/// The frames of events are theirs, one by one and in order.
pub proof fn law_every_event_has_its_frame(events: Seq<Event>, i: int)
    requires
        0 <= i < events.len(),
    ensures
        frames(events).len() == events.len(),
        frames(events)[i] == events[i].frame(),
{
}

/// A text part that is shown first takes the next index, and all of its text
/// is sent.
pub proof fn law_first_showing_sends_all(
    t: TrackerView,
    part: JsonView,
    id: Seq<char>,
    s: Seq<char>,
    thinking: bool,
)
    requires
        id.len() > 0,
        s.len() > 0,
        part.get("id"@) == Some(JsonView::Str(id)),
        part.get("text"@) == Some(JsonView::Str(s)),
        part.get("type"@) == Some(
            JsonView::Str(
                if thinking {
                    "reasoning"@
                } else {
                    "text"@
                },
            ),
        ),
        !t.blocks.contains_key(id),
        t.next_index <= u64::MAX,
    ensures
        diff_part(t, part).1 == seq![
            Event::TextStart { index: t.next_index, thinking },
            Event::TextDelta { index: t.next_index, thinking, text: s },
        ],
        frames(diff_part(t, part).1)[1] == text_frame(t.next_index as u64, thinking, s),
        diff_part(t, part).0.next_index == t.next_index + 1,
        diff_part(t, part).0.blocks == t.blocks.insert(id, t.next_index),
        diff_part(t, part).0.emitted.contains_key(id),
        diff_part(t, part).0.emitted[id] == s.len(),
{
    reveal_strlit("text");
    reveal_strlit("reasoning");
    assert("text"@.len() == 4);
    assert("reasoning"@.len() == 9);
    assert(s.skip(0) =~= s);
    let e = Event::TextDelta { index: t.next_index, thinking, text: s };
    law_frames_say_what_their_events_hold(e);
    assert(diff_part(t, part).1 =~= seq![
        Event::TextStart { index: t.next_index, thinking },
        Event::TextDelta { index: t.next_index, thinking, text: s },
    ]);
}

/// A part changes nothing of what is known of the other parts.
pub proof fn law_other_parts_are_untouched(
    t: TrackerView,
    part: JsonView,
    id: Seq<char>,
    other: Seq<char>,
)
    requires
        part.get("id"@) == Some(JsonView::Str(id)),
        other != id,
    ensures
        ({
            let after = diff_part(t, part).0;
            &&& after.blocks.contains_key(other) == t.blocks.contains_key(other)
            &&& t.blocks.contains_key(other) ==> after.blocks[other] == t.blocks[other]
            &&& after.emitted.contains_key(other) == t.emitted.contains_key(other)
            &&& t.emitted.contains_key(other) ==> after.emitted[other] == t.emitted[other]
            &&& after.tools.contains(other) == t.tools.contains(other)
        }),
{
}

/// A tool part that was sent is known, and is not sent again.
pub proof fn law_sent_tool_is_known(
    t: TrackerView,
    part: JsonView,
    later: JsonView,
    id: Seq<char>,
)
    requires
        part.get("id"@) == Some(JsonView::Str(id)),
        later.get("id"@) == Some(JsonView::Str(id)),
        part.get("type"@) == Some(JsonView::Str("tool"@)),
        later.get("type"@) == Some(JsonView::Str("tool"@)),
        diff_part(t, part).1.len() > 0,
    ensures
        diff_part(t, part).0.tools == t.tools.insert(id),
        diff_part(t, part).0.blocks == t.blocks.insert(id, t.next_index),
        diff_part(diff_part(t, part).0, later) == (diff_part(t, part).0, Seq::<Event>::empty()),
{
    reveal_strlit("text");
    reveal_strlit("reasoning");
    reveal_strlit("tool");
    assert("text"@.len() == 4);
    assert("reasoning"@.len() == 9);
    assert("tool"@.len() == 4);
    assert("text"@[1] != "tool"@[1]);
}

} // verus!
