//! Requests to the upstream server and the classification of its answers.
//!
//! How an answer of the native API is classified:
//!
//! | status        | classification | session                              |
//! |---------------|----------------|--------------------------------------|
//! | 429           | rate limited   | kept                                 |
//! | other 4xx     | stale          | dropped; a reused one recreated once |
//! | 5xx           | failed         | kept                                 |
//! | network error | failed         | kept                                 |

use crate::json;
use crate::text;
use crate::text::{decimal_text, has_prefix, same, trim_end_slashes};
use crate::transform::native;
use vstd::prelude::*;
use vstd::string::*;

verus! {

/// Why a request of a client could not be answered.
#[derive(Debug, PartialEq, Eq)]
pub enum ProxyError {
    RateLimited,
    RequestFailed(String),
}

/// Why one attempt on a native session did not succeed.
#[derive(Debug, PartialEq, Eq)]
pub enum NativeAttemptError {
    RateLimited,
    Stale(String),
    Failed(String),
}

/// What a `ProxyError` holds.
pub enum ProxyErrorView {
    RateLimited,
    RequestFailed(Seq<char>),
}

/// What a `NativeAttemptError` holds.
pub enum AttemptErrorView {
    RateLimited,
    Stale(Seq<char>),
    Failed(Seq<char>),
}

impl View for ProxyError {
    type V = ProxyErrorView;

    open spec fn view(&self) -> ProxyErrorView {
        match *self {
            ProxyError::RateLimited => ProxyErrorView::RateLimited,
            ProxyError::RequestFailed(msg) => ProxyErrorView::RequestFailed(msg@),
        }
    }
}

impl View for NativeAttemptError {
    type V = AttemptErrorView;

    open spec fn view(&self) -> AttemptErrorView {
        match *self {
            NativeAttemptError::RateLimited => AttemptErrorView::RateLimited,
            NativeAttemptError::Stale(msg) => AttemptErrorView::Stale(msg@),
            NativeAttemptError::Failed(msg) => AttemptErrorView::Failed(msg@),
        }
    }
}

/// The root that the paths of the upstream server are added to.
pub open spec fn root_of(base_url: Seq<char>) -> Seq<char> {
    text::without_end_slashes(base_url)
}

/// The base URL without the slashes at its end.
pub fn upstream_root(base_url: &str) -> (r: String)
    ensures
        r@ == root_of(base_url@),
{
    trim_end_slashes(base_url)
}

/// Where the models list is read.
pub fn models_url(base_url: &str) -> (r: String)
    ensures
        r@ == root_of(base_url@) + "/v1/models"@,
{
    upstream_root(base_url).concat("/v1/models")
}

/// Where one model is read.
pub fn model_url(base_url: &str, model_id: &str) -> (r: String)
    ensures
        r@ == root_of(base_url@) + "/v1/models/"@ + model_id@,
{
    upstream_root(base_url).concat("/v1/models/").concat(model_id)
}

/// Where chat completions are requested.
pub fn chat_completions_url(base_url: &str) -> (r: String)
    ensures
        r@ == root_of(base_url@) + "/v1/chat/completions"@,
{
    upstream_root(base_url).concat("/v1/chat/completions")
}

/// Where native sessions are created.
pub fn session_url(root: &str) -> (r: String)
    ensures
        r@ == root@ + "/session"@,
{
    root.to_owned().concat("/session")
}

/// Where the messages of a native session are sent and listed.
pub fn message_url(root: &str, session_id: &str) -> (r: String)
    ensures
        r@ == root@ + "/session/"@ + session_id@ + "/message"@,
{
    root.to_owned().concat("/session/").concat(session_id).concat("/message")
}

/// Where a turn of a native session is started without waiting for it.
pub fn prompt_async_url(root: &str, session_id: &str) -> (r: String)
    ensures
        r@ == root@ + "/session/"@ + session_id@ + "/prompt_async"@,
{
    root.to_owned().concat("/session/").concat(session_id).concat("/prompt_async")
}

/// The value of the authorization header for an API key.
pub fn bearer(key: &str) -> (r: String)
    ensures
        r@ == "Bearer "@ + key@,
{
    "Bearer ".to_owned().concat(key)
}

/// The request id of an answer given `secs` seconds and `nanos` nanoseconds
/// after the Unix epoch: the milliseconds since then.
pub open spec fn request_id_at(secs: u64, nanos: u32) -> Seq<char> {
    "req_"@ + text::decimal((secs * 1000 + nanos as int / 1_000_000) as nat)
}

/// The value of the request id header for a moment.
pub fn request_id(secs: u64, nanos: u32) -> (r: String)
    ensures
        r@ == request_id_at(secs, nanos),
{
    let millis: u128 = secs as u128 * 1000 + (nanos / 1_000_000) as u128;
    "req_".to_owned().concat(decimal_text(millis).as_str())
}

/// What a list of headers holds.
pub open spec fn header_views(list: Seq<(&'static str, &'static str)>) -> Seq<
    (Seq<char>, Seq<char>),
> {
    Seq::new(list.len(), |i: int| (list[i].0@, list[i].1@))
}

/// The headers of an answer that is an event stream.
pub fn event_stream_headers() -> (r: Vec<(&'static str, &'static str)>)
    ensures
        header_views(r@) == seq![
            ("Content-Type"@, "text/event-stream; charset=utf-8"@),
            ("Cache-Control"@, "no-cache"@),
            ("Connection"@, "keep-alive"@),
            ("X-Accel-Buffering"@, "no"@),
        ],
{
    let list: Vec<(&'static str, &'static str)> = vec![
        ("Content-Type", "text/event-stream; charset=utf-8"),
        ("Cache-Control", "no-cache"),
        ("Connection", "keep-alive"),
        ("X-Accel-Buffering", "no"),
    ];
    assert(header_views(list@) =~= seq![
        ("Content-Type"@, "text/event-stream; charset=utf-8"@),
        ("Cache-Control"@, "no-cache"@),
        ("Connection"@, "keep-alive"@),
        ("X-Accel-Buffering"@, "no"@),
    ]);
    list
}

/// The header that tells whether an answer came from a reused session.
pub fn session_header(reused: bool) -> (r: (&'static str, &'static str))
    ensures
        r.0@ == "x-oplire-session"@,
        r.1@ == (if reused {
            "reused"@
        } else {
            "fresh"@
        }),
{
    if reused {
        ("x-oplire-session", "reused")
    } else {
        ("x-oplire-session", "fresh")
    }
}

/// The beginning of a session id that is fit for a log: its first 8 characters.
pub fn short_sid(id: &str) -> (r: String)
    ensures
        r@ == (if id@.len() < 8 {
            id@
        } else {
            id@.take(8)
        }),
{
    text::first_chars(id, 8)
}

/// The host of an absolute URL, as the url crate finds it; nothing for a text
/// that is no absolute URL and for a URL without a host.
pub uninterp spec fn url_host(url: Seq<char>) -> Option<Seq<char>>;

/// `url::Url::parse` and then `Url::host_str`: the host of a URL, if the text
/// is a URL and has one.
#[verifier::external_body]
fn host_of(url: &str) -> (r: Option<String>)
    ensures
        text::opt_string(r) == url_host(url@),
{
    url.parse::<url::Url>().ok().and_then(|u| u.host_str().map(|h| h.to_string()))
}

/// Whether a host is this machine.
pub open spec fn loopback_host(host: Option<Seq<char>>) -> bool {
    match host {
        Some(h) => h == "localhost"@ || h == "127.0.0.1"@ || h == "::1"@
            || "127."@.is_prefix_of(h),
        None => false,
    }
}

/// Whether a host is this machine.
pub fn is_loopback_host(host: Option<&str>) -> (r: bool)
    ensures
        r == loopback_host(json::opt_chars(host)),
{
    match host {
        Some(h) => same(h, "localhost") || same(h, "127.0.0.1") || same(h, "::1") || has_prefix(
            h,
            "127.",
        ),
        None => false,
    }
}

/// Whether a base URL points to this machine.
pub fn is_loopback_url(base_url: &str) -> (r: bool)
    ensures
        r == loopback_host(url_host(base_url@)),
{
    match host_of(base_url) {
        Some(h) => is_loopback_host(Some(h.as_str())),
        None => is_loopback_host(None),
    }
}

/// Whether a status says success.
pub open spec fn success(status: u16) -> bool {
    200 <= status < 300
}

/// A status code with its reason, as the http crate writes it.
pub uninterp spec fn status_text(status: u16) -> Seq<char>;

/// `StatusCode::from_u16` and its `Display`: the code and its reason.
#[verifier::external_body]
fn status_line(status: u16) -> (r: String)
    requires
        100 <= status <= 999,
    ensures
        r@ == status_text(status),
{
    reqwest::StatusCode::from_u16(status).map(|s| s.to_string()).unwrap_or_default()
}

/// The body of an answer, as far as it could be read.
pub open spec fn body_text(body: Option<Seq<char>>) -> Seq<char> {
    match body {
        Some(s) => s,
        None => "Unknown error"@,
    }
}

/// The message for an answer that is no success.
pub open spec fn failure_message(
    source: Seq<char>,
    reason: Seq<char>,
    body: Option<Seq<char>>,
) -> Seq<char> {
    source + reason + " : "@ + body_text(body)
}

fn failure_text(source: &str, reason: &str, body: Option<&str>) -> (r: String)
    ensures
        r@ == failure_message(source@, reason@, json::opt_chars(body)),
{
    let read: &str = match body {
        Some(s) => s,
        None => "Unknown error",
    };
    source.to_owned().concat(reason).concat(" : ").concat(read)
}

/// The error of an attempt that was answered with `status` and `reason`;
/// nothing for a success.
pub open spec fn native_failure(
    status: u16,
    reason: Seq<char>,
    body: Option<Seq<char>>,
) -> Option<AttemptErrorView> {
    let msg = failure_message("Native upstream "@, reason, body);
    if success(status) {
        None
    } else if status == 429 {
        Some(AttemptErrorView::RateLimited)
    } else if 400 <= status < 500 {
        Some(AttemptErrorView::Stale(msg))
    } else {
        Some(AttemptErrorView::Failed(msg))
    }
}

/// What the error of an attempt holds.
pub open spec fn attempt_error<T>(r: Result<T, NativeAttemptError>) -> Option<AttemptErrorView> {
    match r {
        Ok(_) => None,
        Err(e) => Some(e@),
    }
}

/// What the error of a request holds.
pub open spec fn proxy_error<T>(r: Result<T, ProxyError>) -> Option<ProxyErrorView> {
    match r {
        Ok(_) => None,
        Err(e) => Some(e@),
    }
}

/// Classifies an answer of the native API by its status. `reason` is how the
/// status reads, and `body` the body of an answer that is no success, if it
/// could be read.
pub fn classify_native_status(status: u16, reason: &str, body: Option<&str>) -> (r: Result<
    (),
    NativeAttemptError,
>)
    ensures
        attempt_error(r) == native_failure(status, reason@, json::opt_chars(body)),
{
    if 200 <= status && status < 300 {
        Ok(())
    } else if status == 429 {
        Err(NativeAttemptError::RateLimited)
    } else {
        let msg = failure_text("Native upstream ", reason, body);
        if 400 <= status && status < 500 {
            Err(NativeAttemptError::Stale(msg))
        } else {
            Err(NativeAttemptError::Failed(msg))
        }
    }
}

/// Classifies an answer of the native API.
pub fn classify_native_response(status: u16, body: Option<&str>) -> (r: Result<
    (),
    NativeAttemptError,
>)
    requires
        100 <= status <= 999,
    ensures
        attempt_error(r) == native_failure(status, status_text(status), json::opt_chars(body)),
{
    classify_native_status(status, status_line(status).as_str(), body)
}

/// What to do with the answer to a read of the message list after a prompt:
/// use it (`Ok(true)`), do without it (`Ok(false)`), or fail. A server error
/// is no reason to fail.
pub open spec fn history_outcome(
    r: Result<bool, NativeAttemptError>,
    status: u16,
    reason: Seq<char>,
    body: Option<Seq<char>>,
) -> bool {
    if 500 <= status < 600 {
        r == Ok::<bool, NativeAttemptError>(false)
    } else {
        &&& attempt_error(r) == native_failure(status, reason, body)
        &&& r is Ok ==> r->Ok_0
    }
}

/// Classifies the answer to a read of the message list by its status.
pub fn classify_history_status(status: u16, reason: &str, body: Option<&str>) -> (r: Result<
    bool,
    NativeAttemptError,
>)
    ensures
        history_outcome(r, status, reason@, json::opt_chars(body)),
{
    if 500 <= status && status < 600 {
        return Ok(false);
    }
    match classify_native_status(status, reason, body) {
        Ok(_) => Ok(true),
        Err(e) => Err(e),
    }
}

/// Classifies the answer to a read of the message list.
pub fn classify_history_response(status: u16, body: Option<&str>) -> (r: Result<
    bool,
    NativeAttemptError,
>)
    requires
        100 <= status <= 999,
    ensures
        history_outcome(r, status, status_text(status), json::opt_chars(body)),
{
    classify_history_status(status, status_line(status).as_str(), body)
}

/// The error of a request to the chat completions API that was answered with
/// `status` and `reason`; nothing for a success.
pub open spec fn openai_failure(
    status: u16,
    reason: Seq<char>,
    body: Option<Seq<char>>,
) -> Option<ProxyErrorView> {
    if success(status) {
        None
    } else if status == 429 {
        Some(ProxyErrorView::RateLimited)
    } else {
        Some(ProxyErrorView::RequestFailed(failure_message("Upstream "@, reason, body)))
    }
}

/// Classifies an answer of the chat completions API by its status.
pub fn classify_openai_status(status: u16, reason: &str, body: Option<&str>) -> (r: Result<
    (),
    ProxyError,
>)
    ensures
        proxy_error(r) == openai_failure(status, reason@, json::opt_chars(body)),
{
    if 200 <= status && status < 300 {
        Ok(())
    } else if status == 429 {
        Err(ProxyError::RateLimited)
    } else {
        Err(ProxyError::RequestFailed(failure_text("Upstream ", reason, body)))
    }
}

/// Classifies an answer of the chat completions API.
pub fn classify_openai_response(status: u16, body: Option<&str>) -> (r: Result<(), ProxyError>)
    requires
        100 <= status <= 999,
    ensures
        proxy_error(r) == openai_failure(status, status_text(status), json::opt_chars(body)),
{
    classify_openai_status(status, status_line(status).as_str(), body)
}

/// The error of a request whose attempt failed for good.
pub open spec fn given_up(e: AttemptErrorView) -> ProxyErrorView {
    match e {
        AttemptErrorView::RateLimited => ProxyErrorView::RateLimited,
        AttemptErrorView::Stale(msg) => ProxyErrorView::RequestFailed(msg),
        AttemptErrorView::Failed(msg) => ProxyErrorView::RequestFailed(msg),
    }
}

/// Gives up after a failed attempt.
pub fn give_up(e: NativeAttemptError) -> (r: ProxyError)
    ensures
        r@ == given_up(e@),
{
    match e {
        NativeAttemptError::RateLimited => ProxyError::RateLimited,
        NativeAttemptError::Stale(msg) => ProxyError::RequestFailed(msg),
        NativeAttemptError::Failed(msg) => ProxyError::RequestFailed(msg),
    }
}

proof fn lemma_no_end_slash(s: Seq<char>)
    ensures
        text::without_end_slashes(s).len() > 0 ==> text::without_end_slashes(s).last() != '/',
    decreases s.len(),
{
    if s.len() > 0 && s.last() == '/' {
        lemma_no_end_slash(s.drop_last());
    }
}

/// Slashes at the end of a base URL make no difference: its root never ends
/// with one, and a root is its own root.
pub proof fn law_end_slashes_make_no_difference(base_url: Seq<char>)
    ensures
        root_of(base_url).len() > 0 ==> root_of(base_url).last() != '/',
        root_of(root_of(base_url)) == root_of(base_url),
        root_of(base_url.push('/')) == root_of(base_url),
{
    lemma_no_end_slash(base_url);
    assert(base_url.push('/').drop_last() =~= base_url);
}

/// An answer is a success for both APIs or for neither, and both see a rate
/// limit in the same answers.
pub proof fn law_both_apis_see_rate_limits(
    status: u16,
    reason: Seq<char>,
    body: Option<Seq<char>>,
)
    ensures
        native_failure(status, reason, body) is None == openai_failure(status, reason, body) is None,
        native_failure(status, reason, body) == Some(AttemptErrorView::RateLimited) <==> status
            == 429,
        openai_failure(status, reason, body) == Some(ProxyErrorView::RateLimited) <==> status == 429,
{
}

} // verus!
