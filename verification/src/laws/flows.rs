//! Laws of decisions: which answers are failures, how a request goes through
//! its session and its retries, and how a stream goes on.

use crate::json::{Json, JsonView};
use crate::json_parse;
use crate::laws::values;
use crate::laws::values::{has_members, law_object_has_exactly_its_entries};
use crate::proxy::messages;
use crate::proxy::messages::{converted, RetryStep, RetryStepView, RetryView};
use crate::proxy::reply;
use crate::proxy::session;
use crate::proxy::session::{FlowView, SessionStep, Stage, StepView};
use crate::proxy::stream_task::{RunView, StreamStep};
use crate::proxy::upstream;
use crate::proxy::upstream::{AttemptErrorView, NativeAttemptError, ProxyError, ProxyErrorView};
use crate::text;
use crate::transform::native_stream;
use crate::transform::native_stream::{diff_parts, Event, TrackerView};
use crate::transform::turn::{finished, last_info, parts_of, turn_messages};
use vstd::prelude::*;

verus! {

/// An answer of the native API with a status in the two hundreds is a success.
/// Any other is a failure that names the status and the body: a rate limit for
/// 429, a stale session for another client error, and a failure else.
pub proof fn law_native_answers(status: u16, reason: Seq<char>, body: Option<Seq<char>>)
    ensures
        ({
            let told = "Native upstream "@ + reason + " : "@ + (match body {
                Some(s) => s,
                None => "Unknown error"@,
            });
            let r = upstream::native_failure(status, reason, body);
            &&& 200 <= status <= 299 ==> r is None
            &&& status == 429 ==> r == Some(AttemptErrorView::RateLimited)
            &&& 400 <= status <= 499 && status != 429 ==> r == Some(AttemptErrorView::Stale(told))
            &&& status < 200 || 300 <= status <= 399 || status >= 500 ==> r == Some(
                AttemptErrorView::Failed(told),
            )
        }),
{
}

/// The same for chat completions, where every failure but a rate limit ends
/// the request.
pub proof fn law_openai_answers(status: u16, reason: Seq<char>, body: Option<Seq<char>>)
    ensures
        ({
            let told = "Upstream "@ + reason + " : "@ + (match body {
                Some(s) => s,
                None => "Unknown error"@,
            });
            let r = upstream::openai_failure(status, reason, body);
            &&& 200 <= status <= 299 ==> r is None
            &&& status == 429 ==> r == Some(ProxyErrorView::RateLimited)
            &&& (status < 200 || status > 299) && status != 429 ==> r == Some(
                ProxyErrorView::RequestFailed(told),
            )
        }),
{
}

/// A read of the message list that meets a server error is done without; any
/// other failure is that of the native API, and a success is used.
pub proof fn law_history_answers(
    r: Result<bool, upstream::NativeAttemptError>,
    status: u16,
    reason: Seq<char>,
    body: Option<Seq<char>>,
)
    requires
        upstream::history_outcome(r, status, reason, body),
    ensures
        500 <= status <= 599 ==> (r matches Ok(used) && !used),
        200 <= status <= 299 ==> (r matches Ok(used) && used),
        !(500 <= status <= 599) && !(200 <= status <= 299) ==> (r matches Err(e) && Some(e@)
            == upstream::native_failure(status, reason, body)),
{
}

/// A failed attempt is told as it is.
pub proof fn law_giving_up_keeps_the_message(msg: Seq<char>)
    ensures
        upstream::given_up(AttemptErrorView::RateLimited) == ProxyErrorView::RateLimited,
        upstream::given_up(AttemptErrorView::Stale(msg)) == ProxyErrorView::RequestFailed(msg),
        upstream::given_up(AttemptErrorView::Failed(msg)) == ProxyErrorView::RequestFailed(msg),
{
}

/// This machine is named by `localhost`, by `::1` and by what begins with
/// `127.`, and by nothing else.
pub proof fn law_this_machine(host: Seq<char>)
    ensures
        upstream::loopback_host(Some(host)) <==> host == "localhost"@ || host == "::1"@ || (
        host.len() >= 4 && host[0] == '1' && host[1] == '2' && host[2] == '7' && host[3] == '.'),
        !upstream::loopback_host(None),
{
    reveal_strlit("127.");
    reveal_strlit("127.0.0.1");
    let p = "127."@;
    if host.len() >= 4 && host[0] == '1' && host[1] == '2' && host[2] == '7' && host[3] == '.' {
        assert(host.subrange(0, 4) =~= p);
        assert(p.is_prefix_of(host));
    }
    if p.is_prefix_of(host) {
        assert(host.subrange(0, 4) =~= p);
        assert(p[0] == host[0] && p[1] == host[1] && p[2] == host[2] && p[3] == host[3]);
    }
}

/// The root of a base URL is the URL without the slashes at its end, and
/// nothing else is changed.
pub proof fn law_root_is_the_url(base_url: Seq<char>)
    ensures
        ({
            let root = upstream::root_of(base_url);
            &&& root.len() <= base_url.len()
            &&& root == base_url.take(root.len() as int)
            &&& forall|i: int| root.len() <= i < base_url.len() ==> #[trigger] base_url[i] == '/'
            &&& root.len() > 0 ==> root.last() != '/'
        }),
{
    values::law_only_end_slashes_are_dropped(base_url);
}

/// A request id tells the milliseconds of its moment.
pub proof fn law_request_id_tells_the_moment(secs: u64, nanos: u32)
    ensures
        upstream::request_id_at(secs, nanos).len() > 4,
        upstream::request_id_at(secs, nanos).take(4) == "req_"@,
        values::numeral_value(upstream::request_id_at(secs, nanos).skip(4), 10) == secs * 1000
            + nanos / 1_000_000,
{
    reveal_strlit("req_");
    let n = (secs * 1000 + nanos as int / 1_000_000) as nat;
    values::law_numeral_reads_back(n, 10);
    assert(upstream::request_id_at(secs, nanos).take(4) =~= "req_"@);
    assert(upstream::request_id_at(secs, nanos).skip(4) =~= text::decimal(n));
}

/// A request begins on the cached session of its model where there is one, and
/// else by creating one.
pub proof fn law_request_begins_on_its_session(cache: Map<Seq<char>, Seq<char>>, key: Seq<char>)
    ensures
        ({
            let flow = FlowView::begun(cache, key);
            &&& flow.key == key
            &&& flow.attempts == 0
            &&& cache.contains_key(key) ==> flow.stage == Stage::Trying && flow.session_id
                == cache[key] && flow.reused
            &&& !cache.contains_key(key) ==> flow.stage == Stage::Creating && !flow.reused
        }),
{
}

/// A new session is tried next and is not a reused one; without one the
/// request is over.
pub proof fn law_new_session_is_tried(flow: FlowView, id: Seq<char>, e: ProxyErrorView)
    ensures
        ({
            let after = flow.after_create(Ok(id));
            &&& after.session_id == id
            &&& !after.reused
            &&& after.stage == Stage::Trying
            &&& after.key == flow.key
            &&& after.attempts == flow.attempts
        }),
        flow.after_create(Err(e)).stage == Stage::Ended,
{
}

/// An attempt is counted, keeps the model and the session, and ends the
/// request unless a reused session was stale. A success is told as one, and a
/// failure for good is told with its message.
pub proof fn law_attempt_ends_the_request(
    flow: FlowView,
    outcome: Option<AttemptErrorView>,
    msg: Seq<char>,
)
    ensures
        ({
            let after = flow.after_attempt(outcome);
            &&& after.attempts == flow.attempts + 1
            &&& after.key == flow.key
            &&& after.session_id == flow.session_id
            &&& after.reused == flow.reused
        }),
        outcome is None ==> flow.after_attempt(outcome).stage == Stage::Ended
            && flow.step_after_attempt(outcome) == StepView::Done,
        outcome == Some(AttemptErrorView::RateLimited) ==> flow.after_attempt(outcome).stage
            == Stage::Ended && flow.step_after_attempt(outcome) == StepView::Fail(
            ProxyErrorView::RateLimited,
        ),
        outcome == Some(AttemptErrorView::Failed(msg)) ==> flow.after_attempt(outcome).stage
            == Stage::Ended && flow.step_after_attempt(outcome) == StepView::Fail(
            ProxyErrorView::RequestFailed(msg),
        ),
        outcome == Some(AttemptErrorView::Stale(msg)) && !flow.reused ==> flow.after_attempt(
            outcome,
        ).stage == Stage::Ended && flow.step_after_attempt(outcome) == StepView::Fail(
            ProxyErrorView::RequestFailed(msg),
        ),
        outcome == Some(AttemptErrorView::Stale(msg)) && flow.reused ==> flow.after_attempt(
            outcome,
        ).stage == Stage::Creating && flow.step_after_attempt(outcome) == StepView::Create,
{
}

/// A failure that is no rate limit is told at once, with its message, and
/// counts as no retry.
pub proof fn law_failure_is_told(flow: RetryView, msg: Seq<char>)
    ensures
        flow.after_error(ProxyErrorView::RequestFailed(msg)) == (
            flow,
            RetryStepView::Fail("Upstream error: "@ + msg),
        ),
{
}

/// A rate limit calls for one reset, the next in order, while retries are
/// left; then the request fails.
pub proof fn law_rate_limit_calls_for_a_reset(flow: RetryView)
    ensures
        flow.retry_count < flow.max_retries ==> flow.after_error(ProxyErrorView::RateLimited) == (
            RetryView { max_retries: flow.max_retries, retry_count: flow.retry_count + 1 },
            RetryStepView::Reset(flow.retry_count),
        ),
        flow.retry_count >= flow.max_retries ==> flow.after_error(ProxyErrorView::RateLimited) == (
            flow,
            RetryStepView::Fail("Rate limit exceeded after WARP resets"@),
        ),
        RetryView::fresh(flow.max_retries) == (RetryView {
            max_retries: flow.max_retries,
            retry_count: 0,
        }),
{
}

/// A request streams exactly when its member `stream` is true.
pub proof fn law_stream_is_asked_for(body: JsonView)
    ensures
        messages::asks_stream(body) <==> body.get("stream"@) == Some(JsonView::Bool(true)),
{
}

/// A body that is JSON is the request; another is told with the reason.
pub proof fn law_request_or_reason(v: JsonView, reason: Seq<char>)
    ensures
        messages::request_outcome(Ok(v)) == Ok::<JsonView, Seq<char>>(v),
        messages::request_outcome(Err(reason)) == Err::<JsonView, Seq<char>>(
            "Invalid JSON: "@ + reason,
        ),
{
}

/// An error answer has the message as it is, its type and its code, and
/// nothing else.
pub proof fn law_error_answer_has_the_message(message: Seq<char>)
    ensures
        ({
            let v = messages::error_object(message);
            &&& v.get("error"@) is Some
            &&& has_members(v, seq![("error"@, v.get("error"@)->Some_0)])
            &&& has_members(
                v.get("error"@)->Some_0,
                seq![
                    ("message"@, JsonView::Str(message)),
                    ("type"@, JsonView::Str("api_error"@)),
                    ("code"@, JsonView::Str("internal_error"@)),
                ],
            )
        }),
{
    reveal_strlit("message");
    reveal_strlit("type");
    reveal_strlit("code");
    assert("message"@.len() == 7);
    assert("type"@.len() == 4);
    assert("code"@.len() == 4);
    assert("type"@[0] != "code"@[0]);
    let inner = seq![
        ("message"@, JsonView::Str(message)),
        ("type"@, JsonView::Str("api_error"@)),
        ("code"@, JsonView::Str("internal_error"@)),
    ];
    law_object_has_exactly_its_entries(inner);
    let outer = seq![("error"@, crate::json::object_of(inner))];
    law_object_has_exactly_its_entries(outer);
    assert(outer[0] == ("error"@, crate::json::object_of(inner)));
}

/// What is sent on of a chunk are all its converted lines, in order.
pub proof fn law_converted_lines_add_up(
    a: Seq<Option<String>>,
    b: Seq<Option<String>>,
    line: String,
)
    ensures
        converted(a + b) == converted(a) + converted(b),
        converted(Seq::<Option<String>>::empty()) == Seq::<char>::empty(),
        converted(seq![Some(line)]) == line@,
        converted(seq![None::<String>]) == Seq::<char>::empty(),
    decreases b.len(),
{
    let one = seq![Some(line)];
    let none = seq![None::<String>];
    assert(one.drop_last() =~= Seq::empty());
    assert(none.drop_last() =~= Seq::empty());
    assert(converted(Seq::<Option<String>>::empty()) =~= Seq::empty());
    assert(one.last() == Some(line));
    assert(none.last() == None::<String>);
    assert(converted(one) =~= line@);
    assert(converted(none) =~= Seq::empty());
    if b.len() == 0 {
        assert(a + b =~= a);
        assert(converted(a) + converted(b) =~= converted(a));
    } else {
        assert((a + b).drop_last() =~= a + b.drop_last());
        assert((a + b).last() == b.last());
        law_converted_lines_add_up(a, b.drop_last(), line);
        assert(converted(a + b) =~= converted(a) + converted(b));
    }
}

/// A member that is missing reads as null, and another as it is.
pub proof fn law_missing_member_is_null(v: JsonView, key: Seq<char>)
    ensures
        v.get(key) is None ==> reply::member_or_null(v, key) == JsonView::Null,
        v.get(key) matches Some(m) ==> reply::member_or_null(v, key) == m,
{
}

/// A reading shows the parts and the info of the turn that the list shows; its
/// events are what these parts add, and its parts replace those before. A
/// reading without info keeps the info that is known, and one that failed
/// changes nothing.
pub proof fn law_reading_takes_the_turn(run: RunView, list: JsonView)
    ensures
        ({
            let turn = turn_messages(list, run.baseline);
            let parts = parts_of(turn);
            let after = run.after_reading(Some(list));
            &&& after.parts == parts
            &&& after.tracker == diff_parts(run.tracker, parts).0
            &&& run.events(Some(list)) == diff_parts(run.tracker, parts).1
            &&& last_info(turn) matches Some(info) ==> after.info == Some(info)
            &&& last_info(turn) is None ==> after.info == run.info
            &&& after.model == run.model
            &&& after.baseline == run.baseline
            &&& after.polls == run.polls
        }),
        run.after_reading(None) == run,
        run.events(None) == Seq::<Event>::empty(),
{
}

/// A poll is counted. After it the stream goes on to its last reading at once
/// when the turn is finished; otherwise it polls again later while polls are
/// left, and goes on to its last reading later when they are used up.
pub proof fn law_polls_go_on_until_the_end(run: RunView, list: JsonView)
    ensures
        run.after_poll(Some(list)).polls == run.polls + 1,
        run.after_poll(None).polls == run.polls + 1,
        run.after_poll(Some(list)).parts == run.after_reading(Some(list)).parts,
        run.after_poll(Some(list)).info == run.after_reading(Some(list)).info,
        run.after_poll(Some(list)).tracker == run.after_reading(Some(list)).tracker,
        ({
            let done = finished(last_info(turn_messages(list, run.baseline)));
            &&& done ==> run.step(Some(list)) == StreamStep::Flush
            &&& !done && run.polls + 1 < 340 ==> run.step(Some(list)) == StreamStep::PollLater
            &&& !done && run.polls + 1 >= 340 ==> run.step(Some(list)) == StreamStep::FlushLater
        }),
        run.polls + 1 < 340 ==> run.step(None) == StreamStep::PollLater,
        run.polls + 1 >= 340 ==> run.step(None) == StreamStep::FlushLater,
{
}

/// A stream begins with nothing read and nothing sent.
pub proof fn law_stream_begins_empty(model: Seq<char>, baseline: Set<Seq<char>>)
    ensures
        ({
            let run = RunView::fresh(model, baseline);
            &&& run.model == model
            &&& run.baseline == baseline
            &&& run.tracker == TrackerView::fresh()
            &&& run.info is None
            &&& run.parts == Seq::<JsonView>::empty()
            &&& run.polls == 0
            &&& run.final_info() == JsonView::Null
        }),
{
}

/// A stream ends with the info that it has seen last.
pub proof fn law_stream_ends_with_its_last_info(run: RunView, info: JsonView)
    ensures
        run.info == Some(info) ==> run.final_info() == info,
        run.info is None ==> run.final_info() == JsonView::Null,
{
}

/// A reading is refused exactly when the blocks that it opens need more
/// indexes than there are.
pub proof fn law_reading_is_refused_without_room(run: RunView, list: JsonView)
    ensures
        run.has_room(Some(list)) <==> diff_parts(
            run.tracker,
            parts_of(turn_messages(list, run.baseline)),
        ).0.next_index <= u32::MAX,
        run.has_room(None),
{
    native_stream::lemma_next_index_bound(
        run.tracker,
        parts_of(turn_messages(list, run.baseline)),
    );
}

/// The frames that end a stream stop each block by its index, in order, and
/// then tell the reason and the tokens of the turn and end the message.
pub proof fn law_end_of_a_stream(run: RunView, i: int)
    ensures
        run.closing_frames().len() == run.tracker.next_index + 2,
        0 <= i < run.tracker.next_index ==> run.closing_frames()[i] == (Event::Stop {
            index: i as nat,
        }).frame(),
        run.closing_frames()[run.tracker.next_index as int + 1] == "event: message_stop"@ + "\n"@
            + "data: "@ + "{\"type\":\"message_stop\"}"@ + "\n"@ + "\n"@,
{
    reveal_strlit("event: ");
    reveal_strlit("message_stop");
    reveal_strlit("event: message_stop");
    reveal_strlit("\n");
    reveal_strlit("data: ");
    reveal_strlit("\ndata: ");
    reveal_strlit("\n\n");
    assert("event: message_stop"@ =~= "event: "@ + "message_stop"@);
    assert(run.closing_frames()[run.tracker.next_index as int + 1] =~= "event: message_stop"@
        + "\n"@ + "data: "@ + "{\"type\":\"message_stop\"}"@ + "\n"@ + "\n"@);
}

/// Outcomes, errors and steps hold what they say, as it is.
pub proof fn law_outcomes_keep_everything(s: String, j: Json, n: u32)
    ensures
        ProxyError::RequestFailed(s)@ == ProxyErrorView::RequestFailed(s@),
        ProxyError::RateLimited@ == ProxyErrorView::RateLimited,
        NativeAttemptError::RateLimited@ == AttemptErrorView::RateLimited,
        NativeAttemptError::Stale(s)@ == AttemptErrorView::Stale(s@),
        NativeAttemptError::Failed(s)@ == AttemptErrorView::Failed(s@),
        upstream::attempt_error(Err::<(), _>(NativeAttemptError::Stale(s))) == Some(
            AttemptErrorView::Stale(s@),
        ),
        upstream::attempt_error(Err::<(), _>(NativeAttemptError::Failed(s))) == Some(
            AttemptErrorView::Failed(s@),
        ),
        upstream::attempt_error(Err::<(), _>(NativeAttemptError::RateLimited)) == Some(
            AttemptErrorView::RateLimited,
        ),
        upstream::attempt_error(Ok::<(), NativeAttemptError>(())) is None,
        upstream::proxy_error(Err::<(), _>(ProxyError::RequestFailed(s))) == Some(
            ProxyErrorView::RequestFailed(s@),
        ),
        upstream::proxy_error(Err::<(), _>(ProxyError::RateLimited)) == Some(
            ProxyErrorView::RateLimited,
        ),
        upstream::proxy_error(Ok::<(), ProxyError>(())) is None,
        session::created_view(Ok(s)) == Ok::<Seq<char>, ProxyErrorView>(s@),
        session::created_view(Err(ProxyError::RequestFailed(s))) == Err::<Seq<char>, _>(
            ProxyErrorView::RequestFailed(s@),
        ),
        json_parse::outcome(Ok(j)) == Ok::<JsonView, Seq<char>>(j@),
        json_parse::outcome(Err(s)) == Err::<JsonView, Seq<char>>(s@),
        SessionStep::Create@ == StepView::Create,
        SessionStep::Attempt@ == StepView::Attempt,
        SessionStep::Done@ == StepView::Done,
        SessionStep::Fail(ProxyError::RequestFailed(s))@ == StepView::Fail(
            ProxyErrorView::RequestFailed(s@),
        ),
        RetryStep::Send@ == RetryStepView::Send,
        RetryStep::Reset(n)@ == RetryStepView::Reset(n as nat),
        RetryStep::Fail(s)@ == RetryStepView::Fail(s@),
        reply::turn_view(None) is None,
        reply::turn_view(Some((j, j))) == Some((j@, j@)),
{
}

} // verus!
