//! Configuration of the bridge and the models that it offers on its own.

use crate::json;
use crate::json::{object, Json, JsonView, Number, NumberView};
use vstd::prelude::*;

verus! {

/// Backend that the bridge talks to.
#[derive(Debug, Clone, Copy, PartialEq, Eq, Structural)]
pub enum Backend {
    /// Native opencode prompt/session API (default).
    Native,
    /// Legacy OpenAI-compatible chat completions path.
    Openai,
}

impl Default for Backend {
    fn default() -> (r: Self)
        ensures
            r == Backend::Native,
    {
        Backend::Native
    }
}

/// Configuration of a running bridge.
#[derive(Debug, Clone)]
pub struct ProxyConfig {
    /// Address to listen on (default: 127.0.0.1:8080)
    pub listen_addr: String,
    /// OpenCode Zen API base URL (default: http://localhost:3000)
    pub opencode_base_url: String,
    /// API key for OpenCode Zen (if required)
    pub opencode_api_key: Option<String>,
    /// Maximum retry attempts after WARP reset
    pub max_retries: u32,
    /// Delay between WARP reset steps (milliseconds)
    pub warp_reset_delay_ms: u64,
    /// Backend used by the proxy bridge (default: native)
    pub backend: Backend,
}

/// A free model available on OpenCode Zen.
#[derive(Debug, Clone)]
pub struct FreeModel {
    /// Model identifier used by OpenCode Zen
    pub id: String,
    /// Display name
    pub display_name: String,
}

impl View for FreeModel {
    type V = (Seq<char>, Seq<char>);

    open spec fn view(&self) -> (Seq<char>, Seq<char>) {
        (self.id@, self.display_name@)
    }
}

impl Default for ProxyConfig {
    fn default() -> (r: Self)
        ensures
            r.listen_addr@ == "127.0.0.1:8080"@,
            r.opencode_base_url@ == "http://localhost:3000"@,
            r.opencode_api_key is None,
            r.max_retries == 3,
            r.warp_reset_delay_ms == 5000,
            r.backend == Backend::Native,
    {
        ProxyConfig {
            listen_addr: "127.0.0.1:8080".to_owned(),
            opencode_base_url: "http://localhost:3000".to_owned(),
            opencode_api_key: None,
            max_retries: 3,
            warp_reset_delay_ms: 5000,
            backend: Backend::Native,
        }
    }
}

/// Identifier and display name of each free model, in order.
pub open spec fn free_model_names() -> Seq<(Seq<char>, Seq<char>)> {
    seq![
        ("big-pickle"@, "Big Pickle"@),
        ("ling-3.0-flash-fin-free"@, "Ling 3.0 Flash Fin Free"@),
        ("mimo-v2.5-free"@, "Mimo V2.5 Free"@),
        ("muse-spark-1.2-contributor-free"@, "Muse Spark 1.2 Contributor Free"@),
        ("muse-spark-1.3-contributor-free"@, "Muse Spark 1.3 Contributor Free"@),
        ("nemotron-3-ultra-free"@, "Nemotron 3 Ultra Free"@),
        ("nemotron-3.5-lightning-free"@, "Nemotron 3.5 Lightning Free"@),
    ]
}

/// What the models of a list hold.
pub open spec fn model_names(list: Seq<FreeModel>) -> Seq<(Seq<char>, Seq<char>)> {
    Seq::new(list.len(), |i: int| list[i]@)
}

/// The entry of one model in the models list that the bridge answers when the
/// upstream server gives none.
pub open spec fn listed_model(id: Seq<char>) -> JsonView {
    json::object_of(
        seq![
            ("id"@, JsonView::Str(id)),
            ("object"@, JsonView::Str("model"@)),
            ("created"@, JsonView::Num(NumberView::Unsigned(0))),
            ("owned_by"@, JsonView::Str("opencode-zen"@)),
        ],
    )
}

/// The models list that the bridge answers when the upstream server gives none.
pub open spec fn listed_models() -> JsonView {
    json::object_of(
        seq![
            ("object"@, JsonView::Str("list"@)),
            (
                "data"@,
                JsonView::Arr(
                    Seq::new(
                        free_model_names().len(),
                        |i: int| listed_model(free_model_names()[i].0),
                    ),
                ),
            ),
        ],
    )
}

fn free_model(id: &str, display_name: &str) -> (r: FreeModel)
    ensures
        r@ == (id@, display_name@),
{
    FreeModel { id: id.to_owned(), display_name: display_name.to_owned() }
}

impl ProxyConfig {
    /// Returns the list of free models.
    pub fn free_models() -> (r: Vec<FreeModel>)
        ensures
            model_names(r@) == free_model_names(),
    {
        let list: Vec<FreeModel> = vec![
            free_model("big-pickle", "Big Pickle"),
            free_model("ling-3.0-flash-fin-free", "Ling 3.0 Flash Fin Free"),
            free_model("mimo-v2.5-free", "Mimo V2.5 Free"),
            free_model("muse-spark-1.2-contributor-free", "Muse Spark 1.2 Contributor Free"),
            free_model("muse-spark-1.3-contributor-free", "Muse Spark 1.3 Contributor Free"),
            free_model("nemotron-3-ultra-free", "Nemotron 3 Ultra Free"),
            free_model("nemotron-3.5-lightning-free", "Nemotron 3.5 Lightning Free"),
        ];
        assert(model_names(list@) =~= free_model_names());
        list
    }

    /// Builds the models list in the Anthropic-compatible form.
    pub fn models_response() -> (r: Json)
        ensures
            r@ == listed_models(),
    {
        broadcast use {json::lemma_model_arr, json::lemma_model_obj};

        let free = Self::free_models();
        let mut data: Vec<Json> = Vec::new();
        let mut i: usize = 0;
        while i < free.len()
            invariant
                i <= free@.len(),
                model_names(free@) == free_model_names(),
                data@.len() == i,
                forall|k: int|
                    0 <= k < i ==> json::model(#[trigger] data@[k]) == listed_model(
                        free_model_names()[k].0,
                    ),
            decreases free@.len() - i,
        {
            let ghost id = free_model_names()[i as int].0;
            assert(model_names(free@)[i as int] == free@[i as int]@);
            let entries: Vec<(String, Json)> = vec![
                ("id".to_owned(), Json::Str(free[i].id.clone())),
                ("object".to_owned(), Json::Str("model".to_owned())),
                ("created".to_owned(), Json::Num(Number::Unsigned(0))),
                ("owned_by".to_owned(), Json::Str("opencode-zen".to_owned())),
            ];
            let ghost shape = seq![
                ("id"@, JsonView::Str(id)),
                ("object"@, JsonView::Str("model"@)),
                ("created"@, JsonView::Num(NumberView::Unsigned(0))),
                ("owned_by"@, JsonView::Str("opencode-zen"@)),
            ];
            assert(json::model_members(entries@) =~= shape);
            data.push(object(entries));
            i += 1;
        }
        let ghost listed = Seq::new(
            free_model_names().len(),
            |k: int| listed_model(free_model_names()[k].0),
        );
        assert(json::model_items(data@) =~= listed);
        let entries: Vec<(String, Json)> = vec![
            ("object".to_owned(), Json::Str("list".to_owned())),
            ("data".to_owned(), Json::Arr(data)),
        ];
        assert(json::model_members(entries@) =~= seq![
            ("object"@, JsonView::Str("list"@)),
            ("data"@, JsonView::Arr(listed)),
        ]);
        object(entries)
    }
}

/// Configuration as it is stored.
#[derive(Debug, Clone)]
pub struct AppConfig {
    pub listen: String,
    pub upstream: String,
    pub max_retries: u32,
    pub warp_delay: u64,
    pub backend: Backend,
}

impl Default for AppConfig {
    fn default() -> (r: Self)
        ensures
            r.listen@ == "127.0.0.1:8080"@,
            r.upstream@ == "http://localhost:3000"@,
            r.max_retries == 3,
            r.warp_delay == 5000,
            r.backend == Backend::Native,
    {
        AppConfig {
            listen: "127.0.0.1:8080".to_owned(),
            upstream: "http://localhost:3000".to_owned(),
            max_retries: 3,
            warp_delay: 5000,
            backend: Backend::Native,
        }
    }
}

} // verus!
