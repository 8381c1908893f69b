//! The course of a messages request: how it is read, which way it goes, when
//! it is sent again, and how a failure is told to the client.

use crate::config::Backend;
use crate::json;
use crate::json::{object, Json, JsonView};
use crate::json_parse;
use crate::json_parse::parse;
use crate::proxy::upstream;
use crate::proxy::upstream::{ProxyError, ProxyErrorView};
use crate::text;
use crate::text::split_lines;
use crate::transform::native::unix_time;
use vstd::prelude::*;
use vstd::string::*;

verus! {

/// A request, or the message for a body that is not JSON.
pub open spec fn request_outcome(read: Result<JsonView, Seq<char>>) -> Result<JsonView, Seq<char>> {
    match read {
        Ok(request) => Ok(request),
        Err(reason) => Err("Invalid JSON: "@ + reason),
    }
}

/// Takes the outcome of parsing the body of a request: the request, or the
/// message for the client.
pub fn accept_request(read: Result<Json, String>) -> (r: Result<Json, String>)
    ensures
        json_parse::outcome(r) == request_outcome(json_parse::outcome(read)),
{
    match read {
        Ok(request) => Ok(request),
        Err(reason) => Err("Invalid JSON: ".to_owned().concat(reason.as_str())),
    }
}

/// Reads the body of a request: the request, or the message for the client.
pub fn read_request(body: &[u8]) -> (r: Result<Json, String>)
    ensures
        json_parse::outcome(r) == request_outcome(json_parse::parsed(body@)),
{
    accept_request(parse(body))
}

/// Whether a request asks for a stream.
pub open spec fn asks_stream(body: JsonView) -> bool {
    body.bool_at("stream"@) == Some(true)
}

/// Whether a request asks for a stream.
pub fn wants_stream(body: &Json) -> (r: bool)
    ensures
        r == asks_stream(body@),
{
    match body.bool_at("stream") {
        Some(b) => b,
        None => false,
    }
}

/// The model that a request asks for, as the answer names it.
pub fn requested_model(body: &Json) -> (r: String)
    ensures
        r@ == body@.str_or("model"@, "unknown"@),
{
    body.str_or("model", "unknown").to_owned()
}

/// The way that a request goes.
#[derive(Debug, Clone, Copy, PartialEq, Eq, Structural)]
pub enum Route {
    /// A native turn, streamed while it runs.
    NativeStream,
    /// A native turn, answered when it is complete.
    NativeUnary,
    /// Chat completions, streamed.
    OpenaiStream,
    /// Chat completions, answered at once.
    OpenaiUnary,
}

/// Chooses the way of a request.
pub fn route(backend: Backend, stream: bool) -> (r: Route)
    ensures
        r == match (backend, stream) {
            (Backend::Native, true) => Route::NativeStream,
            (Backend::Native, false) => Route::NativeUnary,
            (Backend::Openai, true) => Route::OpenaiStream,
            (Backend::Openai, false) => Route::OpenaiUnary,
        },
{
    match backend {
        Backend::Native => if stream {
            Route::NativeStream
        } else {
            Route::NativeUnary
        },
        Backend::Openai => if stream {
            Route::OpenaiStream
        } else {
            Route::OpenaiUnary
        },
    }
}

/// What follows a request that did not succeed.
pub enum RetryStep {
    /// Send the request.
    Send,
    /// Reset the network path, for the given attempt counted from 0, and
    /// report whether that was done.
    Reset(u32),
    /// Tell the client this failure.
    Fail(String),
}

/// What a `RetryStep` holds.
pub enum RetryStepView {
    Send,
    Reset(nat),
    Fail(Seq<char>),
}

impl View for RetryStep {
    type V = RetryStepView;

    open spec fn view(&self) -> RetryStepView {
        match *self {
            RetryStep::Send => RetryStepView::Send,
            RetryStep::Reset(attempt) => RetryStepView::Reset(attempt as nat),
            RetryStep::Fail(message) => RetryStepView::Fail(message@),
        }
    }
}

/// How often a request was sent again because of a rate limit.
pub struct RetryFlow {
    max_retries: u32,
    retry_count: u32,
}

/// What a `RetryFlow` holds.
pub struct RetryView {
    /// How often a request may be sent again.
    pub max_retries: nat,
    /// How often it was.
    pub retry_count: nat,
}

impl View for RetryFlow {
    type V = RetryView;

    closed spec fn view(&self) -> RetryView {
        RetryView {
            max_retries: self.max_retries as nat,
            retry_count: self.retry_count as nat,
        }
    }
}

impl RetryView {
    /// A request is not sent again more often than it may be.
    pub open spec fn wf(self) -> bool {
        self.retry_count <= self.max_retries
    }

    /// A request that has not been sent.
    pub open spec fn fresh(max_retries: nat) -> RetryView {
        RetryView { max_retries, retry_count: 0 }
    }

    /// The request after an error, and what follows: a rate limit calls for a
    /// reset as long as retries are left, any other error is told.
    pub open spec fn after_error(self, e: ProxyErrorView) -> (RetryView, RetryStepView) {
        match e {
            ProxyErrorView::RateLimited => if self.retry_count + 1 > self.max_retries {
                (self, RetryStepView::Fail("Rate limit exceeded after WARP resets"@))
            } else {
                (
                    RetryView { retry_count: self.retry_count + 1, ..self },
                    RetryStepView::Reset(self.retry_count),
                )
            },
            ProxyErrorView::RequestFailed(msg) => (
                self,
                RetryStepView::Fail("Upstream error: "@ + msg),
            ),
        }
    }
}

impl RetryFlow {
    /// A request that may be sent again `max_retries` times.
    pub fn new(max_retries: u32) -> (r: Self)
        ensures
            r@ == RetryView::fresh(max_retries as nat),
            r@.wf(),
    {
        RetryFlow { max_retries, retry_count: 0 }
    }

    /// Takes the error of a request.
    pub fn failed(&mut self, e: ProxyError) -> (r: RetryStep)
        requires
            old(self)@.wf(),
        ensures
            (final(self)@, r@) == old(self)@.after_error(e@),
            final(self)@.wf(),
    {
        match e {
            ProxyError::RateLimited => {
                if self.retry_count >= self.max_retries {
                    return RetryStep::Fail("Rate limit exceeded after WARP resets".to_owned());
                }
                let attempt: u32 = self.retry_count;
                self.retry_count = attempt + 1;
                RetryStep::Reset(attempt)
            },
            ProxyError::RequestFailed(msg) => RetryStep::Fail(
                "Upstream error: ".to_owned().concat(msg.as_str()),
            ),
        }
    }

    /// Takes the outcome of a reset.
    pub fn reset(&self, done: bool) -> (r: RetryStep)
        ensures
            r@ == (if done {
                RetryStepView::Send
            } else {
                RetryStepView::Fail("WARP reset failed, rate limit still active"@)
            }),
    {
        if done {
            RetryStep::Send
        } else {
            RetryStep::Fail("WARP reset failed, rate limit still active".to_owned())
        }
    }
}

/// A request after it has met the rate limit `n` times, with a reset done
/// between each two, and what follows.
pub open spec fn rate_limited(max_retries: nat, n: nat) -> (RetryView, RetryStepView)
    decreases n,
{
    if n == 0 {
        (RetryView::fresh(max_retries), RetryStepView::Send)
    } else {
        rate_limited(max_retries, (n - 1) as nat).0.after_error(ProxyErrorView::RateLimited)
    }
}

/// A request that always meets the rate limit is followed by resets 0, 1 and
/// so on as long as retries are left. It fails when it has been sent once
/// more than it may be sent again.
pub proof fn law_retries_are_bounded(max_retries: nat, n: nat)
    requires
        0 < n <= max_retries + 1,
    ensures
        n <= max_retries ==> rate_limited(max_retries, n) == (
            RetryView { max_retries, retry_count: n },
            RetryStepView::Reset((n - 1) as nat),
        ),
        n == max_retries + 1 ==> rate_limited(max_retries, n).1 == RetryStepView::Fail(
            "Rate limit exceeded after WARP resets"@,
        ),
    decreases n,
{
    if n > 1 {
        law_retries_are_bounded(max_retries, (n - 1) as nat);
    } else {
        assert(rate_limited(max_retries, 0).0 == RetryView::fresh(max_retries));
    }
}

/// The body that tells a client of a failure.
pub open spec fn error_object(message: Seq<char>) -> JsonView {
    json::object_of(
        seq![
            (
                "error"@,
                json::object_of(
                    seq![
                        ("message"@, JsonView::Str(message)),
                        ("type"@, JsonView::Str("api_error"@)),
                        ("code"@, JsonView::Str("internal_error"@)),
                    ],
                ),
            ),
        ],
    )
}

/// Builds the body that tells a client of a failure.
pub fn error_body(message: &str) -> (r: Json)
    ensures
        r@ == error_object(message@),
{
    let inner: Vec<(String, Json)> = vec![
        ("message".to_owned(), Json::Str(message.to_owned())),
        ("type".to_owned(), Json::Str("api_error".to_owned())),
        ("code".to_owned(), Json::Str("internal_error".to_owned())),
    ];
    assert(json::model_members(inner@) =~= seq![
        ("message"@, JsonView::Str(message@)),
        ("type"@, JsonView::Str("api_error"@)),
        ("code"@, JsonView::Str("internal_error"@)),
    ]);
    let error = object(inner);
    let ghost error_view = error@;
    let outer: Vec<(String, Json)> = vec![("error".to_owned(), error)];
    assert(json::model_members(outer@) =~= seq![("error"@, error_view)]);
    object(outer)
}

/// The request id header of an answer that is given now.
pub fn present_request_id() -> (r: String)
    ensures
        exists|secs: u64, nanos: u32|
            nanos < 1_000_000_000 && r@ == #[trigger] upstream::request_id_at(secs, nanos),
{
    let now = unix_time();
    upstream::request_id(now.0, now.1)
}

/// The text of some bytes, as std decodes them: what is not UTF-8 becomes
/// U+FFFD.
pub uninterp spec fn lossy_text(bytes: Seq<u8>) -> Seq<char>;

/// `String::from_utf8_lossy`: the text of some bytes.
#[verifier::external_body]
fn decode_lossy(bytes: &[u8]) -> (r: String)
    ensures
        r@ == lossy_text(bytes@),
{
    String::from_utf8_lossy(bytes).into_owned()
}

/// Reads a chunk of a stream: its text and the lines of it.
pub fn read_chunk(chunk: &[u8]) -> (r: (String, Vec<String>))
    ensures
        r.0@ == lossy_text(chunk@),
        text::views(r.1@) == text::lines_of(lossy_text(chunk@)),
{
    let whole = decode_lossy(chunk);
    let lines = split_lines(whole.as_str());
    (whole, lines)
}

/// What the converted lines of a chunk make, one after another.
pub open spec fn converted(lines: Seq<Option<String>>) -> Seq<char>
    decreases lines.len(),
{
    if lines.len() == 0 {
        Seq::empty()
    } else {
        converted(lines.drop_last()) + match lines.last() {
            Some(s) => s@,
            None => Seq::empty(),
        }
    }
}

/// What is sent on for a chunk: its converted lines, and the chunk as it came
/// where they make nothing.
pub fn assemble_chunk(whole: String, lines: &Vec<Option<String>>) -> (r: String)
    ensures
        r@ == (if converted(lines@).len() == 0 {
            whole@
        } else {
            converted(lines@)
        }),
{
    let mut out = String::new();
    let mut i: usize = 0;
    assert(out@ =~= converted(lines@.take(0)));
    while i < lines.len()
        invariant
            i <= lines@.len(),
            out@ == converted(lines@.take(i as int)),
        decreases lines@.len() - i,
    {
        assert(lines@.take(i + 1).drop_last() =~= lines@.take(i as int));
        let ghost was = out@;
        if let Some(s) = &lines[i] {
            out.append(s.as_str());
        } else {
            assert(was + Seq::empty() =~= was);
        }
        i += 1;
    }
    assert(lines@.take(lines@.len() as int) =~= lines@);
    if out.as_str().is_empty() {
        whole
    } else {
        out
    }
}

} // verus!
