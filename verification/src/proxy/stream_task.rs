//! The course of one native stream.
//!
//! A stream opens with `message_start`. Then the message list is read again
//! and again, and what each reading shows of the turn is compared with what
//! was sent. When the turn is finished, or the polls are used up, the list is
//! read once more, every block is stopped, and the stream ends with the stop
//! reason and the usage of the turn.

use crate::json;
use crate::json::{Json, JsonView};
use crate::text;
use crate::transform::native;
use crate::transform::native::{native_response_to_anthropic, uuid_short};
use crate::transform::native_stream;
use crate::transform::native_stream::{diff_turn_parts, message_delta_event, message_start_event};
use crate::transform::native_stream::{message_stop_event, stop_open_blocks, StreamTracker};
use crate::transform::native_stream::{Event, TrackerView, MAX_POLLS, POLL_INTERVAL_MS};
use crate::transform::protocol;
use crate::transform::turn;
use crate::transform::turn::{collect_turn_parts, MessageIds};
use vstd::prelude::*;
use vstd::string::*;

verus! {

/// What a stream does after a poll.
#[derive(Debug, Clone, Copy, PartialEq, Eq, Structural)]
pub enum StreamStep {
    /// Poll again after the poll interval.
    PollLater,
    /// Read the list for the last time after the poll interval.
    FlushLater,
    /// Read the list for the last time.
    Flush,
}

/// One native stream.
pub struct StreamRun {
    model: String,
    baseline: MessageIds,
    tracker: StreamTracker,
    last_info: Option<Json>,
    last_parts: Vec<Json>,
    polls: usize,
}

/// What a `StreamRun` holds.
#[verifier::ext_equal]
pub struct RunView {
    /// The model that the client asked for.
    pub model: Seq<char>,
    /// The ids of the messages that were there before the turn.
    pub baseline: Set<Seq<char>>,
    /// What was sent of the turn.
    pub tracker: TrackerView,
    /// The last info that was seen of the turn.
    pub info: Option<JsonView>,
    /// The parts of the turn at the last reading.
    pub parts: Seq<JsonView>,
    /// How many polls were made.
    pub polls: nat,
}

impl View for StreamRun {
    type V = RunView;

    closed spec fn view(&self) -> RunView {
        RunView {
            model: self.model@,
            baseline: self.baseline@,
            tracker: self.tracker@,
            info: json::opt_view(self.last_info),
            parts: json::model_items(self.last_parts@),
            polls: self.polls as nat,
        }
    }
}

impl RunView {
    /// A stream that has read nothing.
    pub open spec fn fresh(model: Seq<char>, baseline: Set<Seq<char>>) -> RunView {
        RunView {
            model,
            baseline,
            tracker: TrackerView::fresh(),
            info: None,
            parts: Seq::empty(),
            polls: 0,
        }
    }

    /// The parts of the turn that a message list shows.
    pub open spec fn shown_parts(self, messages: JsonView) -> Seq<JsonView> {
        turn::parts_of(turn::turn_messages(messages, self.baseline))
    }

    /// The info of the turn that a message list shows.
    pub open spec fn shown_info(self, messages: JsonView) -> Option<JsonView> {
        turn::last_info(turn::turn_messages(messages, self.baseline))
    }

    /// The stream after a reading of the message list; a reading that failed
    /// changes nothing.
    pub open spec fn after_reading(self, messages: Option<JsonView>) -> RunView {
        match messages {
            Some(list) => RunView {
                tracker: native_stream::diff_parts(self.tracker, self.shown_parts(list)).0,
                info: match self.shown_info(list) {
                    Some(info) => Some(info),
                    None => self.info,
                },
                parts: self.shown_parts(list),
                ..self
            },
            None => self,
        }
    }

    /// The events that a reading of the message list brings.
    pub open spec fn events(self, messages: Option<JsonView>) -> Seq<Event> {
        match messages {
            Some(list) => native_stream::diff_parts(self.tracker, self.shown_parts(list)).1,
            None => Seq::empty(),
        }
    }

    /// The stream after a poll.
    pub open spec fn after_poll(self, messages: Option<JsonView>) -> RunView {
        RunView { polls: self.polls + 1, ..self.after_reading(messages) }
    }

    /// What follows a poll: the last reading at once when the turn is
    /// finished, otherwise a poll or the last reading after a while.
    pub open spec fn step(self, messages: Option<JsonView>) -> StreamStep {
        if messages is Some && turn::finished(self.shown_info(messages->Some_0)) {
            StreamStep::Flush
        } else if self.polls + 1 < MAX_POLLS {
            StreamStep::PollLater
        } else {
            StreamStep::FlushLater
        }
    }

    /// Whether there is an index for every block that the parts of a message
    /// list open.
    pub open spec fn has_room(self, messages: Option<JsonView>) -> bool {
        match messages {
            Some(list) => native_stream::has_room(self.tracker, self.shown_parts(list)),
            None => true,
        }
    }

    /// The info of the turn, null where none was seen.
    pub open spec fn final_info(self) -> JsonView {
        match self.info {
            Some(info) => info,
            None => JsonView::Null,
        }
    }

    /// The frames that end the stream.
    pub open spec fn closing_frames(self) -> Seq<Seq<char>> {
        native_stream::frames(native_stream::stops(self.tracker.next_index)).push(
            native_stream::sse(
                "message_delta"@,
                native_stream::closing_delta(
                    native::stop_reason(self.final_info(), self.parts),
                    self.final_info().u64_in("tokens"@, "input"@),
                    self.final_info().u64_in("tokens"@, "output"@),
                ).text(),
            ),
        ).push(native_stream::sse("message_stop"@, "{\"type\":\"message_stop\"}"@))
    }
}

impl StreamRun {
    /// Begins the stream of the message `msg_id`. `baseline` has the ids of
    /// the messages that the session had before the turn was started.
    pub fn start_with_id(msg_id: &str, model: &str, baseline: MessageIds) -> (r: (
        StreamRun,
        String,
    ))
        ensures
            r.0@ == RunView::fresh(model@, baseline@),
            r.1@ == native_stream::sse(
                "message_start"@,
                native_stream::opening_message(msg_id@, model@).text(),
            ),
    {
        let run = StreamRun {
            model: model.to_owned(),
            baseline,
            tracker: StreamTracker::new(),
            last_info: None,
            last_parts: Vec::new(),
            polls: 0,
        };
        assert(run@.parts =~= Seq::empty());
        (run, message_start_event(msg_id, model))
    }

    /// Begins a stream, with a message id of its own.
    pub fn start(model: &str, baseline: MessageIds) -> (r: (StreamRun, String))
        ensures
            r.0@ == RunView::fresh(model@, baseline@),
            exists|secs: u64, nanos: u32|
                nanos < 1_000_000_000 && r.1@ == native_stream::sse(
                    "message_start"@,
                    native_stream::opening_message(
                        "msg_"@ + #[trigger] native::moment_id(secs, nanos),
                        model@,
                    ).text(),
                ),
    {
        let id = "msg_".to_owned().concat(uuid_short().as_str());
        StreamRun::start_with_id(id.as_str(), model, baseline)
    }

    /// Takes a reading of the message list. Where it would need more block
    /// indexes than there are, the stream stays as it is.
    fn read(&mut self, messages: Option<&Json>) -> (r: Option<(Vec<String>, bool)>)
        ensures
            r is Some == old(self)@.has_room(json::opt_model(messages)),
            r is Some ==> {
                &&& final(self)@ == old(self)@.after_reading(json::opt_model(messages))
                &&& final(self).polls == old(self).polls
                &&& text::views(r->Some_0.0@) == native_stream::frames(
                    old(self)@.events(json::opt_model(messages)),
                )
                &&& r->Some_0.1 == (messages is Some && turn::finished(
                    old(self)@.shown_info(messages->Some_0@),
                ))
            },
            r is None ==> final(self)@ == old(self)@ && final(self).polls == old(self).polls,
    {
        let ghost before = self@;
        let list = match messages {
            Some(list) => list,
            None => {
                let none: Vec<String> = Vec::new();
                assert(text::views(none@) =~= native_stream::frames(Seq::empty()));
                return Some((none, false));
            },
        };
        let (parts, info, done) = collect_turn_parts(list, &self.baseline);
        if !self.tracker.has_room_for(&parts) {
            return None;
        }
        let frames = diff_turn_parts(&mut self.tracker, &parts);
        if info.is_some() {
            self.last_info = info;
        }
        self.last_parts = parts;
        assert(self@ =~= before.after_reading(Some(list@)));
        Some((frames, done))
    }

    /// Takes the outcome of a poll, which is the message list where it could
    /// be read: returns the frames to send and what follows. Where the list
    /// would need more block indexes than there are, nothing is returned and
    /// the stream stays as it is.
    pub fn polled(&mut self, messages: Option<&Json>) -> (r: Option<(Vec<String>, StreamStep)>)
        requires
            old(self)@.polls < MAX_POLLS,
        ensures
            r is Some == old(self)@.has_room(json::opt_model(messages)),
            r is Some ==> {
                &&& final(self)@ == old(self)@.after_poll(json::opt_model(messages))
                &&& text::views(r->Some_0.0@) == native_stream::frames(
                    old(self)@.events(json::opt_model(messages)),
                )
                &&& r->Some_0.1 == old(self)@.step(json::opt_model(messages))
            },
            r is None ==> final(self)@ == old(self)@,
    {
        match self.read(messages) {
            Some((frames, done)) => {
                self.polls = self.polls + 1;
                let step = if done {
                    StreamStep::Flush
                } else if self.polls < MAX_POLLS {
                    StreamStep::PollLater
                } else {
                    StreamStep::FlushLater
                };
                Some((frames, step))
            },
            None => None,
        }
    }

    /// Takes the outcome of the last reading: returns the frames to send.
    pub fn flushed(&mut self, messages: Option<&Json>) -> (r: Option<Vec<String>>)
        ensures
            r is Some == old(self)@.has_room(json::opt_model(messages)),
            r is Some ==> {
                &&& final(self)@ == old(self)@.after_reading(json::opt_model(messages))
                &&& text::views(r->Some_0@) == native_stream::frames(
                    old(self)@.events(json::opt_model(messages)),
                )
            },
            r is None ==> final(self)@ == old(self)@,
    {
        match self.read(messages) {
            Some((frames, _)) => Some(frames),
            None => None,
        }
    }

    /// Ends the stream: returns the frames that stop every block, tell the
    /// stop reason and the usage of the turn, and end the message.
    pub fn finish(self) -> (r: Vec<String>)
        ensures
            text::views(r@) == self@.closing_frames(),
    {
        broadcast use {json::lemma_model_arr, json::lemma_model_obj};

        let ghost view = self@;
        let StreamRun { model, baseline, mut tracker, last_info, last_parts, polls } = self;
        let mut out = stop_open_blocks(&mut tracker);
        let info: Json = match last_info {
            Some(info) => info,
            None => Json::Null,
        };
        let parts: Json = Json::Arr(last_parts);
        assert(turn::listed(parts@) == view.parts);
        let canonical = native_response_to_anthropic(&info, &parts, model.as_str());
        proof {
            let (secs, nanos) = choose|secs: u64, nanos: u32|
                nanos < 1_000_000_000 && canonical@ == native::anthropic_message(
                    "msg_"@ + #[trigger] native::moment_id(secs, nanos),
                    info@,
                    parts@,
                    model@,
                );
            native::law_message_tells_stop_and_usage(
                "msg_"@ + native::moment_id(secs, nanos),
                info@,
                parts@,
                model@,
            );
        }
        let delta = message_delta_event(
            canonical.str_or("stop_reason", "end_turn"),
            canonical.u64_in("usage", "input_tokens"),
            canonical.u64_in("usage", "output_tokens"),
        );
        let ghost stopped = text::views(out@);
        let ghost delta_view = delta@;
        out.push(delta);
        assert(text::views(out@) =~= stopped.push(delta_view));
        let end = message_stop_event();
        let ghost end_view = end@;
        out.push(end);
        assert(text::views(out@) =~= stopped.push(delta_view).push(end_view));
        out
    }
}

/// The polls of a stream take less than two minutes.
pub proof fn law_polls_take_less_than_two_minutes()
    ensures
        MAX_POLLS * POLL_INTERVAL_MS == 102_000,
        MAX_POLLS * POLL_INTERVAL_MS < 120_000,
{
}

/// A stream makes no more than the given number of polls.
pub proof fn law_polls_are_bounded(run: RunView, messages: Option<JsonView>)
    requires
        run.polls < MAX_POLLS,
    ensures
        run.after_poll(messages).polls <= MAX_POLLS,
        run.step(messages) == StreamStep::PollLater ==> run.after_poll(messages).polls < MAX_POLLS,
{
}

/// Reading the same message list again sends nothing: the last reading adds
/// only what the polls have not seen.
pub proof fn law_reading_again_sends_nothing(run: RunView, list: JsonView)
    ensures
        run.after_reading(Some(list)).events(Some(list)) == Seq::<Event>::empty(),
        run.after_reading(Some(list)).after_reading(Some(list)) == run.after_reading(Some(list)),
{
    protocol::law_nothing_is_sent_twice(run.tracker, run.shown_parts(list));
}

/// A stream ends with the stop reason and the usage that the message of a
/// unary answer tells for the same turn, and then with `message_stop`.
pub proof fn law_stream_ends_as_the_answer_does(run: RunView, id: Seq<char>)
    ensures
        ({
            let answer = native::anthropic_message(
                id,
                run.final_info(),
                JsonView::Arr(run.parts),
                run.model,
            );
            let frames = run.closing_frames();
            &&& frames.len() == run.tracker.next_index + 2
            &&& frames[frames.len() - 2] == native_stream::sse(
                "message_delta"@,
                native_stream::closing_delta(
                    answer.str_or("stop_reason"@, "end_turn"@),
                    answer.u64_in("usage"@, "input_tokens"@),
                    answer.u64_in("usage"@, "output_tokens"@),
                ).text(),
            )
            &&& frames.last() == native_stream::sse(
                "message_stop"@,
                "{\"type\":\"message_stop\"}"@,
            )
        }),
{
    native::law_message_tells_stop_and_usage(
        id,
        run.final_info(),
        JsonView::Arr(run.parts),
        run.model,
    );
}

/// A stream after some readings, one after another, and the events that they
/// bring.
pub open spec fn after_readings(run: RunView, readings: Seq<Option<JsonView>>) -> (
    RunView,
    Seq<Event>,
)
    decreases readings.len(),
{
    if readings.len() == 0 {
        (run, Seq::empty())
    } else {
        let before = after_readings(run, readings.drop_last());
        (
            before.0.after_reading(readings.last()),
            before.1 + before.0.events(readings.last()),
        )
    }
}

/// The parts that some readings show of the turn, one reading after another.
pub open spec fn all_shown(run: RunView, readings: Seq<Option<JsonView>>) -> Seq<JsonView>
    decreases readings.len(),
{
    if readings.len() == 0 {
        Seq::empty()
    } else {
        all_shown(run, readings.drop_last()) + match readings.last() {
            Some(list) => run.shown_parts(list),
            None => Seq::empty(),
        }
    }
}

/// The events of a whole stream are those of all the parts that its readings
/// show, so that what holds of the parts of one reading holds of the stream.
pub proof fn law_stream_adds_up(run: RunView, readings: Seq<Option<JsonView>>)
    ensures
        after_readings(run, readings).0.baseline == run.baseline,
        after_readings(run, readings).0.tracker == native_stream::diff_parts(
            run.tracker,
            all_shown(run, readings),
        ).0,
        after_readings(run, readings).1 == native_stream::diff_parts(
            run.tracker,
            all_shown(run, readings),
        ).1,
    decreases readings.len(),
{
    if readings.len() > 0 {
        let start = readings.drop_last();
        let before = after_readings(run, start);
        law_stream_adds_up(run, start);
        match readings.last() {
            Some(list) => {
                protocol::law_readings_add_up(
                    run.tracker,
                    all_shown(run, start),
                    run.shown_parts(list),
                );
            },
            None => {
                assert(all_shown(run, start) + Seq::<JsonView>::empty() =~= all_shown(run, start));
                assert(before.1 + Seq::<Event>::empty() =~= before.1);
            },
        }
    }
}

/// A stream stops every block that its readings have opened, once and in the
/// order of the indexes.
pub proof fn law_stream_stops_its_blocks(
    model: Seq<char>,
    baseline: Set<Seq<char>>,
    readings: Seq<Option<JsonView>>,
)
    ensures
        ({
            let (run, events) = after_readings(RunView::fresh(model, baseline), readings);
            protocol::stopped(native_stream::stops(run.tracker.next_index)) == protocol::started(
                events,
            )
        }),
{
    let run = RunView::fresh(model, baseline);
    law_stream_adds_up(run, readings);
    protocol::law_every_block_is_stopped(all_shown(run, readings));
}

/// The deltas of a block make the whole text of its part, over all the
/// readings of a stream. The `i`th of the parts that they show is the last
/// one with its id.
pub proof fn law_stream_sends_whole_texts(
    model: Seq<char>,
    baseline: Set<Seq<char>>,
    readings: Seq<Option<JsonView>>,
    i: int,
)
    requires
        ({
            let shown = all_shown(RunView::fresh(model, baseline), readings);
            &&& 0 <= i < shown.len()
            &&& protocol::latest(shown, i)
            &&& protocol::grows(shown, protocol::part_id(shown[i]))
        }),
    ensures
        ({
            let start = RunView::fresh(model, baseline);
            let (run, events) = after_readings(start, readings);
            protocol::sent_whole(run.tracker, events, all_shown(start, readings)[i])
        }),
{
    let start = RunView::fresh(model, baseline);
    law_stream_adds_up(start, readings);
    protocol::law_text_is_sent_whole(all_shown(start, readings), i);
}

/// Every tool call that settles is sent with its whole input, over all the
/// readings of a stream. The `i`th of the parts that they show is the first
/// one with its id that has settled.
pub proof fn law_stream_sends_whole_tools(
    model: Seq<char>,
    baseline: Set<Seq<char>>,
    readings: Seq<Option<JsonView>>,
    i: int,
)
    requires
        ({
            let shown = all_shown(RunView::fresh(model, baseline), readings);
            0 <= i < shown.len() && protocol::first_settled(shown, i)
        }),
    ensures
        ({
            let start = RunView::fresh(model, baseline);
            let events = after_readings(start, readings).1;
            exists|k: int| #[trigger]
                protocol::tool_sent_at(events, k, all_shown(start, readings)[i])
        }),
{
    let start = RunView::fresh(model, baseline);
    law_stream_adds_up(start, readings);
    protocol::law_tool_is_sent_whole(all_shown(start, readings), i);
}

} // verus!
