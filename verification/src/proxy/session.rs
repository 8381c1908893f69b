//! Native sessions: the cache of session ids and the course of one request.
//!
//! One upstream session is kept per native model id and reused across
//! requests, so that different models never share a session. A request takes
//! the cached session or creates one. When the server calls a session stale,
//! its id is dropped; a request that had reused it is tried once more on a new
//! one.

use crate::json;
use crate::json::{extend_copies, object, Json, JsonView};
use crate::proxy::upstream;
use crate::proxy::upstream::{give_up, is_loopback_url, NativeAttemptError, ProxyError};
use crate::proxy::upstream::{AttemptErrorView, ProxyErrorView};
use crate::text;
use crate::text::same;
use crate::transform::native;
use crate::transform::native::{anthropic_to_native_parts, NativeRequest};
use vstd::hash_map::StringHashMap;
use vstd::prelude::*;
use vstd::string::*;

verus! {

/// Session ids by native model id.
pub struct SessionCache {
    ids: StringHashMap<String>,
}

impl View for SessionCache {
    type V = Map<Seq<char>, Seq<char>>;

    closed spec fn view(&self) -> Map<Seq<char>, Seq<char>> {
        self.ids@.map_values(|s: String| s@)
    }
}

/// The cache without the id of `key`, if that id is `id`.
pub open spec fn dropped(cache: Map<Seq<char>, Seq<char>>, key: Seq<char>, id: Seq<char>) -> Map<
    Seq<char>,
    Seq<char>,
> {
    if cache.contains_key(key) && cache[key] == id {
        cache.remove(key)
    } else {
        cache
    }
}

impl SessionCache {
    /// An empty cache.
    pub fn new() -> (r: Self)
        ensures
            r@ == Map::<Seq<char>, Seq<char>>::empty(),
    {
        let r = SessionCache { ids: StringHashMap::new() };
        assert(r@ =~= Map::empty());
        r
    }

    /// The session id of a model.
    pub fn get(&self, key: &str) -> (r: Option<String>)
        ensures
            text::opt_string(r) == (if self@.contains_key(key@) {
                Some(self@[key@])
            } else {
                None
            }),
    {
        match self.ids.get(key) {
            Some(id) => Some(id.clone()),
            None => None,
        }
    }

    /// Sets the session id of a model.
    pub fn insert(&mut self, key: &str, id: &str)
        ensures
            final(self)@ == old(self)@.insert(key@, id@),
    {
        let ghost before = self@;
        self.ids.insert(key.to_owned(), id.to_owned());
        assert(self@ =~= before.insert(key@, id@));
    }

    /// Drops the session id of a model, but only if it is still `session_id`:
    /// a fresher id that another request has stored stays.
    pub fn drop_cached_session(&mut self, key: &str, session_id: &str)
        ensures
            final(self)@ == dropped(old(self)@, key@, session_id@),
    {
        let ghost before = self@;
        let current = match self.ids.get(key) {
            Some(id) => same(id.as_str(), session_id),
            None => false,
        };
        if current {
            self.ids.remove(key);
            assert(self@ =~= before.remove(key@));
        }
    }
}

/// What a request does next.
pub enum SessionStep {
    /// Create a session and report how that went.
    Create,
    /// Make an attempt on the session and report how that went.
    Attempt,
    /// The attempt has succeeded.
    Done,
    /// The request has failed.
    Fail(ProxyError),
}

/// What a `SessionStep` holds.
pub enum StepView {
    Create,
    Attempt,
    Done,
    Fail(ProxyErrorView),
}

impl View for SessionStep {
    type V = StepView;

    open spec fn view(&self) -> StepView {
        match *self {
            SessionStep::Create => StepView::Create,
            SessionStep::Attempt => StepView::Attempt,
            SessionStep::Done => StepView::Done,
            SessionStep::Fail(e) => StepView::Fail(e@),
        }
    }
}

/// What a request is waiting for.
#[derive(Debug, Clone, Copy, PartialEq, Eq, Structural)]
pub enum Stage {
    /// A new session.
    Creating,
    /// The outcome of an attempt.
    Trying,
    /// Nothing more.
    Ended,
}

/// The course of one request through its session.
pub struct SessionFlow {
    key: String,
    session_id: String,
    reused: bool,
    attempts: u8,
    stage: Stage,
}

/// What a `SessionFlow` holds.
pub struct FlowView {
    /// The native model id, under which the session is cached.
    pub key: Seq<char>,
    /// The session in use.
    pub session_id: Seq<char>,
    /// Whether the session came out of the cache.
    pub reused: bool,
    /// How many attempts were made.
    pub attempts: nat,
    pub stage: Stage,
}

impl View for SessionFlow {
    type V = FlowView;

    closed spec fn view(&self) -> FlowView {
        FlowView {
            key: self.key@,
            session_id: self.session_id@,
            reused: self.reused,
            attempts: self.attempts as nat,
            stage: self.stage,
        }
    }
}

impl FlowView {
    /// A reused session is tried first, and at most one new session after it.
    pub open spec fn wf(self) -> bool {
        match self.stage {
            Stage::Creating => self.attempts == (if self.reused {
                1nat
            } else {
                0nat
            }),
            Stage::Trying => self.attempts == 0 || self.attempts == 1 && !self.reused,
            Stage::Ended => self.attempts <= 2,
        }
    }

    /// The beginning of a request for the model `key`.
    pub open spec fn begun(cache: Map<Seq<char>, Seq<char>>, key: Seq<char>) -> FlowView {
        if cache.contains_key(key) {
            FlowView {
                key,
                session_id: cache[key],
                reused: true,
                attempts: 0,
                stage: Stage::Trying,
            }
        } else {
            FlowView {
                key,
                session_id: Seq::empty(),
                reused: false,
                attempts: 0,
                stage: Stage::Creating,
            }
        }
    }

    /// The request after a session was created, or could not be.
    pub open spec fn after_create(self, outcome: Result<Seq<char>, ProxyErrorView>) -> FlowView {
        match outcome {
            Ok(id) => FlowView { session_id: id, reused: false, stage: Stage::Trying, ..self },
            Err(_) => FlowView { stage: Stage::Ended, ..self },
        }
    }

    /// Whether the outcome of an attempt calls for a new session: the server
    /// calls the session stale, and it was a reused one.
    pub open spec fn resets(self, outcome: Option<AttemptErrorView>) -> bool {
        self.reused && outcome matches Some(AttemptErrorView::Stale(_))
    }

    /// The request after an attempt.
    pub open spec fn after_attempt(self, outcome: Option<AttemptErrorView>) -> FlowView {
        FlowView {
            attempts: self.attempts + 1,
            stage: if self.resets(outcome) {
                Stage::Creating
            } else {
                Stage::Ended
            },
            ..self
        }
    }

    /// What follows an attempt.
    pub open spec fn step_after_attempt(self, outcome: Option<AttemptErrorView>) -> StepView {
        match outcome {
            None => StepView::Done,
            Some(e) => if self.resets(outcome) {
                StepView::Create
            } else {
                StepView::Fail(upstream::given_up(e))
            },
        }
    }

    /// The cache after an attempt: a stale session leaves it.
    pub open spec fn cache_after_attempt(
        self,
        cache: Map<Seq<char>, Seq<char>>,
        outcome: Option<AttemptErrorView>,
    ) -> Map<Seq<char>, Seq<char>> {
        if outcome matches Some(AttemptErrorView::Stale(_)) {
            dropped(cache, self.key, self.session_id)
        } else {
            cache
        }
    }
}

/// What the outcome of creating a session holds.
pub open spec fn created_view(r: Result<String, ProxyError>) -> Result<
    Seq<char>,
    ProxyErrorView,
> {
    match r {
        Ok(id) => Ok(id@),
        Err(e) => Err(e@),
    }
}

impl SessionFlow {
    /// Begins a request for a model: with its cached session, if there is one.
    pub fn begin(cache: &SessionCache, key: &str) -> (r: (SessionFlow, SessionStep))
        ensures
            r.0@ == FlowView::begun(cache@, key@),
            r.0@.wf(),
            r.1@ == (if cache@.contains_key(key@) {
                StepView::Attempt
            } else {
                StepView::Create
            }),
    {
        match cache.get(key) {
            Some(id) => (
                SessionFlow {
                    key: key.to_owned(),
                    session_id: id,
                    reused: true,
                    attempts: 0,
                    stage: Stage::Trying,
                },
                SessionStep::Attempt,
            ),
            None => (
                SessionFlow {
                    key: key.to_owned(),
                    session_id: String::new(),
                    reused: false,
                    attempts: 0,
                    stage: Stage::Creating,
                },
                SessionStep::Create,
            ),
        }
    }

    /// The session in use.
    pub fn session_id(&self) -> (r: &str)
        ensures
            r@ == self@.session_id,
    {
        self.session_id.as_str()
    }

    /// Whether the session in use came out of the cache.
    pub fn reused(&self) -> (r: bool)
        ensures
            r == self@.reused,
    {
        self.reused
    }

    /// Takes the outcome of creating a session. A new session is cached.
    pub fn created(&mut self, cache: &mut SessionCache, outcome: Result<String, ProxyError>) -> (r:
        SessionStep)
        requires
            old(self)@.wf(),
            old(self)@.stage == Stage::Creating,
        ensures
            final(self)@ == old(self)@.after_create(created_view(outcome)),
            final(self)@.wf(),
            match created_view(outcome) {
                Ok(id) => final(cache)@ == old(cache)@.insert(old(self)@.key, id) && r@
                    == StepView::Attempt,
                Err(e) => final(cache)@ == old(cache)@ && r@ == StepView::Fail(e),
            },
    {
        match outcome {
            Ok(id) => {
                cache.insert(self.key.as_str(), id.as_str());
                self.session_id = id;
                self.reused = false;
                self.stage = Stage::Trying;
                SessionStep::Attempt
            },
            Err(e) => {
                self.stage = Stage::Ended;
                SessionStep::Fail(e)
            },
        }
    }

    /// Takes the outcome of an attempt.
    pub fn attempted(&mut self, cache: &mut SessionCache, outcome: Result<(), NativeAttemptError>)
        -> (r: SessionStep)
        requires
            old(self)@.wf(),
            old(self)@.stage == Stage::Trying,
        ensures
            final(self)@ == old(self)@.after_attempt(upstream::attempt_error(outcome)),
            final(self)@.wf(),
            final(cache)@ == old(self)@.cache_after_attempt(
                old(cache)@,
                upstream::attempt_error(outcome),
            ),
            r@ == old(self)@.step_after_attempt(upstream::attempt_error(outcome)),
    {
        self.attempts = self.attempts + 1;
        match outcome {
            Ok(_) => {
                self.stage = Stage::Ended;
                SessionStep::Done
            },
            Err(e) => {
                let stale = match &e {
                    NativeAttemptError::Stale(_) => true,
                    _ => false,
                };
                if stale {
                    cache.drop_cached_session(self.key.as_str(), self.session_id.as_str());
                }
                if stale && self.reused {
                    self.stage = Stage::Creating;
                    SessionStep::Create
                } else {
                    self.stage = Stage::Ended;
                    SessionStep::Fail(give_up(e))
                }
            },
        }
    }
}

/// Why a body is not sent to the native API: the upstream server is not on
/// this machine, or the body has nothing that the native API takes.
pub open spec fn refusal(loopback: bool, base_url: Seq<char>, body: JsonView) -> Option<
    ProxyErrorView,
> {
    if !loopback {
        Some(
            ProxyErrorView::RequestFailed("refusing non-loopback native upstream: "@ + base_url),
        )
    } else if native::input_parts(native::list_at(body, "messages"@)).len() == 0 {
        Some(
            ProxyErrorView::RequestFailed(
                "no mappable native input parts (only text/image content is supported)"@,
            ),
        )
    } else {
        None
    }
}

/// Whether `r` is the native request for `body`.
pub open spec fn is_native_request(r: NativeRequest, body: JsonView) -> bool {
    &&& json::model_items(r.parts@) == native::input_parts(native::list_at(body, "messages"@))
    &&& text::opt_string(r.system) == native::system_prompt(body)
    &&& r.model_id@ == body.str_or("model"@, ""@)
    &&& r.dropped_tool_results == native::dropped_result_count(
        native::list_at(body, "messages"@),
    )
    &&& r.dropped_tools == native::schemaless_count(native::list_at(body, "tools"@))
}

/// Prepares the native request for a body, knowing whether the upstream
/// server is on this machine: it is refused when the server is not, and when
/// the body has nothing that the native API takes.
pub fn prepare_native_for(loopback: bool, base_url: &str, body: &Json) -> (r: Result<
    NativeRequest,
    ProxyError,
>)
    ensures
        upstream::proxy_error(r) == refusal(loopback, base_url@, body@),
        r is Ok ==> is_native_request(r->Ok_0, body@),
{
    if !loopback {
        return Err(
            ProxyError::RequestFailed(
                "refusing non-loopback native upstream: ".to_owned().concat(base_url),
            ),
        );
    }
    let request = anthropic_to_native_parts(body);
    if request.parts.len() == 0 {
        assert(json::model_items(request.parts@).len() == 0);
        return Err(
            ProxyError::RequestFailed(
                "no mappable native input parts (only text/image content is supported)".to_owned(),
            ),
        );
    }
    assert(json::model_items(request.parts@).len() > 0);
    Ok(request)
}

/// Prepares the native request for a body.
pub fn prepare_native(base_url: &str, body: &Json) -> (r: Result<NativeRequest, ProxyError>)
    ensures
        upstream::proxy_error(r) == refusal(
            upstream::loopback_host(upstream::url_host(base_url@)),
            base_url@,
            body@,
        ),
        r is Ok ==> is_native_request(r->Ok_0, body@),
{
    prepare_native_for(is_loopback_url(base_url), base_url, body)
}

/// The body of a native prompt.
pub open spec fn prompt_message(
    model_id: Seq<char>,
    parts: Seq<JsonView>,
    system: Option<Seq<char>>,
) -> JsonView {
    let base = seq![
        (
            "model"@,
            json::object_of(
                seq![
                    ("providerID"@, JsonView::Str("opencode"@)),
                    ("modelID"@, JsonView::Str(model_id)),
                ],
            ),
        ),
        ("parts"@, JsonView::Arr(parts)),
    ];
    match system {
        Some(s) => json::object_of(base.push(("system"@, JsonView::Str(s)))),
        None => json::object_of(base),
    }
}

/// Builds the body of a native prompt.
pub fn prompt_body(request: &NativeRequest) -> (r: Json)
    ensures
        r@ == prompt_message(
            request.model_id@,
            json::model_items(request.parts@),
            text::opt_string(request.system),
        ),
{
    broadcast use {json::lemma_model_arr, json::lemma_model_obj};

    let inner: Vec<(String, Json)> = vec![
        ("providerID".to_owned(), Json::Str("opencode".to_owned())),
        ("modelID".to_owned(), Json::Str(request.model_id.clone())),
    ];
    assert(json::model_members(inner@) =~= seq![
        ("providerID"@, JsonView::Str("opencode"@)),
        ("modelID"@, JsonView::Str(request.model_id@)),
    ]);
    let model = object(inner);
    let ghost model_view = model@;
    let mut parts: Vec<Json> = Vec::new();
    extend_copies(&mut parts, &request.parts);
    assert(json::model_items(parts@) =~= json::model_items(request.parts@));
    let ghost parts_view = json::model_items(parts@);
    let mut entries: Vec<(String, Json)> = vec![
        ("model".to_owned(), model),
        ("parts".to_owned(), Json::Arr(parts)),
    ];
    let ghost base = seq![("model"@, model_view), ("parts"@, JsonView::Arr(parts_view))];
    assert(json::model_members(entries@) =~= base);
    if let Some(system) = &request.system {
        entries.push(("system".to_owned(), Json::Str(system.clone())));
        assert(json::model_members(entries@) =~= base.push(
            ("system"@, JsonView::Str(system@)),
        ));
    }
    object(entries)
}

/// The session id in the answer to the creation of a session.
pub fn created_session_id(session: &Json) -> (r: Result<String, ProxyError>)
    ensures
        created_view(r) == match session@.str_at("id"@) {
            Some(id) => Ok(id),
            None => Err(ProxyErrorView::RequestFailed("native session response missing id"@)),
        },
{
    match session.str_at("id") {
        Some(id) => Ok(id.to_owned()),
        None => Err(ProxyError::RequestFailed("native session response missing id".to_owned())),
    }
}

/// How each kind of answer of the native API treats the session of a request:
/// a rate limit, a server error and any other failure keep it; another client
/// error drops it from the cache, if it is still there, and calls for a new
/// one where it was a reused one.
pub proof fn law_reset_table(
    flow: FlowView,
    cache: Map<Seq<char>, Seq<char>>,
    status: u16,
    reason: Seq<char>,
    body: Option<Seq<char>>,
)
    ensures
        ({
            let outcome = upstream::native_failure(status, reason, body);
            let client_error = 400 <= status < 500 && status != 429;
            &&& !client_error ==> flow.cache_after_attempt(cache, outcome) == cache
            &&& client_error ==> flow.cache_after_attempt(cache, outcome) == dropped(
                cache,
                flow.key,
                flow.session_id,
            )
            &&& client_error && flow.reused ==> flow.step_after_attempt(outcome)
                == StepView::Create
            &&& client_error && !flow.reused ==> flow.step_after_attempt(outcome) is Fail
            &&& status == 429 ==> flow.step_after_attempt(outcome) == StepView::Fail(
                ProxyErrorView::RateLimited,
            )
            &&& upstream::success(status) ==> flow.step_after_attempt(outcome) == StepView::Done
        }),
{
}

/// A session that the server has refused is not cached any more, whether it
/// was reused or new.
pub proof fn law_refused_session_is_not_cached(
    flow: FlowView,
    cache: Map<Seq<char>, Seq<char>>,
    msg: Seq<char>,
)
    ensures
        ({
            let after = flow.cache_after_attempt(cache, Some(AttemptErrorView::Stale(msg)));
            !(after.contains_key(flow.key) && after[flow.key] == flow.session_id)
        }),
{
}

/// A network error keeps the session.
pub proof fn law_network_error_keeps_session(
    flow: FlowView,
    cache: Map<Seq<char>, Seq<char>>,
    msg: Seq<char>,
)
    ensures
        flow.cache_after_attempt(cache, Some(AttemptErrorView::Failed(msg))) == cache,
        flow.step_after_attempt(Some(AttemptErrorView::Failed(msg))) == StepView::Fail(
            ProxyErrorView::RequestFailed(msg),
        ),
{
}

/// A request touches no session but that of its own model.
pub proof fn law_other_models_keep_their_sessions(
    flow: FlowView,
    cache: Map<Seq<char>, Seq<char>>,
    outcome: Option<AttemptErrorView>,
    id: Seq<char>,
    other: Seq<char>,
)
    requires
        other != flow.key,
    ensures
        flow.cache_after_attempt(cache, outcome).contains_key(other) == cache.contains_key(other),
        cache.contains_key(other) ==> flow.cache_after_attempt(cache, outcome)[other]
            == cache[other],
        cache.insert(flow.key, id).contains_key(other) == cache.contains_key(other),
        cache.contains_key(other) ==> cache.insert(flow.key, id)[other] == cache[other],
{
}

/// A stale session is dropped only while it is the cached one: an id that
/// another request has stored in the meantime stays.
pub proof fn law_fresher_session_stays(
    cache: Map<Seq<char>, Seq<char>>,
    key: Seq<char>,
    stale: Seq<char>,
    fresher: Seq<char>,
)
    requires
        stale != fresher,
    ensures
        dropped(cache.insert(key, fresher), key, stale) == cache.insert(key, fresher),
        !dropped(cache.insert(key, stale), key, stale).contains_key(key),
{
}

/// A request makes at most two attempts: it is over after the second one,
/// and after the first one on a new session.
pub proof fn law_at_most_two_attempts(flow: FlowView, outcome: Option<AttemptErrorView>)
    requires
        flow.wf(),
        flow.stage == Stage::Trying,
    ensures
        flow.after_attempt(outcome).attempts <= 2,
        flow.after_attempt(outcome).attempts == 2 || !flow.reused ==> flow.after_attempt(
            outcome,
        ).stage == Stage::Ended && flow.step_after_attempt(outcome) != StepView::Create,
        flow.after_attempt(outcome).stage == Stage::Creating ==> flow.after_attempt(
            outcome,
        ).attempts == 1,
{
}

/// After a reset the request goes on with the new session, which is cached
/// and does not count as reused.
pub proof fn law_reset_takes_new_session(
    flow: FlowView,
    cache: Map<Seq<char>, Seq<char>>,
    msg: Seq<char>,
    id: Seq<char>,
)
    requires
        flow.wf(),
        flow.stage == Stage::Trying,
        flow.reused,
    ensures
        ({
            let outcome = Some(AttemptErrorView::Stale(msg));
            let reset = flow.after_attempt(outcome);
            let retried = reset.after_create(Ok(id));
            let after = flow.cache_after_attempt(cache, outcome).insert(reset.key, id);
            &&& reset.stage == Stage::Creating
            &&& retried.session_id == id
            &&& !retried.reused
            &&& retried.stage == Stage::Trying
            &&& after[flow.key] == id
        }),
{
}

} // verus!
