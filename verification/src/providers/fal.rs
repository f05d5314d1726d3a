//! Fal: its queue endpoints, how a queued request's state is read, the
//! upload request, and the models and schema it is described by.

use vstd::prelude::*;
use crate::config::opt_view;
use crate::json::{object2, Json, JsonV};
use crate::providers::{
    detected_mime, first_n, infos_view, keep_first, FileUpload, ModelInfo, ModelInfoV, ModelSchema, ModelSchemaV,
    PredictionMetrics, PredictionResult, PredictionResultV, PredictionStatus, PredictionUrls,
};
use crate::paths::{path_file_name, path_file_name_of};
use crate::text::{concat2, concat3, text_eq};

verus! {

/// The root of Fal's queue API.
pub open spec fn queue_base() -> Seq<char> {
    "https://queue.fal.run"@
}

fn queue_base_str() -> (s: &'static str)
    ensures
        s@ == queue_base(),
{
    "https://queue.fal.run"
}

/// The endpoint that hands out upload URLs.
pub open spec fn upload_api() -> Seq<char> {
    "https://rest.fal.run/storage/upload/url"@
}

/// The endpoint that hands out upload URLs.
pub fn upload_api_url() -> (s: String)
    ensures
        s@ == upload_api(),
{
    "https://rest.fal.run/storage/upload/url".to_owned()
}

/// The `Authorization` header value for an API key.
pub fn auth_header_value(api_key: &str) -> (v: String)
    ensures
        v@ == "Key "@ + api_key@,
{
    concat2("Key ", api_key)
}

/// The endpoint that queues a request for `model`.
pub fn submit_url(model: &str) -> (u: String)
    ensures
        u@ == queue_base() + "/"@ + model@,
{
    concat3(queue_base_str(), "/", model)
}

/// The endpoint of a queued request.
pub open spec fn request_url(model: Seq<char>, id: Seq<char>) -> Seq<char> {
    queue_base() + "/"@ + model + "/requests/"@ + id
}

fn request_url_of(model: &str, id: &str) -> (u: String)
    ensures
        u@ == request_url(model@, id@),
{
    let mut u = concat3(queue_base_str(), "/", model);
    u.append("/requests/");
    u.append(id);
    u
}

/// The endpoint that gives a queued request's result.
pub fn result_url(model: &str, id: &str) -> (u: String)
    ensures
        u@ == request_url(model@, id@),
{
    request_url_of(model, id)
}

/// The endpoint that gives a queued request's state.
pub fn status_url(model: &str, id: &str) -> (u: String)
    ensures
        u@ == request_url(model@, id@) + "/status"@,
{
    let mut u = request_url_of(model, id);
    u.append("/status");
    u
}

/// The endpoint that cancels a queued request.
pub fn cancel_url(model: &str, id: &str) -> (u: String)
    ensures
        u@ == request_url(model@, id@) + "/cancel"@,
{
    let mut u = request_url_of(model, id);
    u.append("/cancel");
    u
}

/// The result of a request that was just queued: starting, with the URLs
/// where it can be read and cancelled.
pub open spec fn submitted_of(id: Seq<char>, model: Seq<char>) -> PredictionResultV {
    PredictionResultV {
        id,
        status: PredictionStatus::Starting,
        output: None,
        error: None,
        metrics: None,
        urls: Some((Some(request_url(model, id)), Some(request_url(model, id) + "/cancel"@))),
    }
}

/// The result of a request that was just queued.
pub fn submitted_result(request_id: &str, model: &str) -> (r: PredictionResult)
    ensures
        r@ == submitted_of(request_id@, model@),
{
    PredictionResult {
        id: request_id.to_owned(),
        status: PredictionStatus::Starting,
        output: None,
        error: None,
        metrics: None,
        urls: Some(
            PredictionUrls {
                get: Some(result_url(model, request_id)),
                cancel: Some(cancel_url(model, request_id)),
            },
        ),
    }
}

/// Where a queued request stands.
#[derive(Debug, PartialEq, Eq, Structural)]
pub enum QueueState {
    Completed,
    Failed,
    Pending,
}

/// The state a queue status word stands for: `COMPLETED`, `FAILED`, and
/// anything else is still pending.
pub open spec fn queue_state_of(s: Seq<char>) -> QueueState {
    if s == "COMPLETED"@ {
        QueueState::Completed
    } else if s == "FAILED"@ {
        QueueState::Failed
    } else {
        QueueState::Pending
    }
}

/// Reads a queue status word.
pub fn parse_queue_state(s: &str) -> (q: QueueState)
    ensures
        q == queue_state_of(s@),
{
    if text_eq(s, "COMPLETED") {
        QueueState::Completed
    } else if text_eq(s, "FAILED") {
        QueueState::Failed
    } else {
        QueueState::Pending
    }
}

/// A queued request's state as Fal reports it.
pub struct FalQueueStatus {
    pub status: String,
    pub error: Option<String>,
}

/// Timings as Fal reports them (bit patterns of doubles, in seconds).
pub struct FalMetrics {
    pub inference_time: Option<u64>,
    pub total_time: Option<u64>,
}

/// A completed request's result: its data and, if reported, its timings.
pub struct FalResult {
    pub data: Json,
    pub metrics: Option<FalMetrics>,
}

/// The result of a completed request.
pub open spec fn completed_of(id: Seq<char>, r: FalResult) -> PredictionResultV {
    PredictionResultV {
        id,
        status: PredictionStatus::Succeeded,
        output: Some(r.data@),
        error: None,
        metrics: match r.metrics {
            Some(m) => Some(PredictionMetrics { predict_time: m.inference_time, total_time: m.total_time }),
            None => None,
        },
        urls: None,
    }
}

/// The result of a completed request.
pub fn completed_result(request_id: &str, result: FalResult) -> (r: PredictionResult)
    ensures
        r@ == completed_of(request_id@, result),
{
    PredictionResult {
        id: request_id.to_owned(),
        status: PredictionStatus::Succeeded,
        output: Some(result.data),
        error: None,
        metrics: match result.metrics {
            Some(m) => Some(PredictionMetrics { predict_time: m.inference_time, total_time: m.total_time }),
            None => None,
        },
        urls: None,
    }
}

/// The result of a failed request, with the error Fal gave.
pub open spec fn failed_of(id: Seq<char>, error: Option<Seq<char>>) -> PredictionResultV {
    PredictionResultV {
        id,
        status: PredictionStatus::Failed,
        output: None,
        error,
        metrics: None,
        urls: None,
    }
}

/// What polling does after reading a request's state.
pub enum PollStep {
    /// The request is done: fetch its result.
    FetchResult,
    /// The request failed: this is the result.
    Finished(PredictionResult),
    /// The request is still queued or running: wait and ask again.
    Wait,
}

/// Decides, from a request's reported state, how polling goes on.
pub fn poll_step(request_id: &str, status: FalQueueStatus) -> (s: PollStep)
    ensures
        match queue_state_of(status.status@) {
            QueueState::Completed => s is FetchResult,
            QueueState::Failed => s matches PollStep::Finished(r) && r@ == failed_of(
                request_id@,
                opt_view(status.error),
            ),
            QueueState::Pending => s is Wait,
        },
{
    match parse_queue_state(status.status.as_str()) {
        QueueState::Completed => PollStep::FetchResult,
        QueueState::Failed => PollStep::Finished(
            PredictionResult {
                id: request_id.to_owned(),
                status: PredictionStatus::Failed,
                output: None,
                error: status.error,
                metrics: None,
                urls: None,
            },
        ),
        QueueState::Pending => PollStep::Wait,
    }
}

/// The body that asks for an upload URL: the file's name (`file` when the
/// path has none) and its detected MIME type.
pub open spec fn upload_request_of(path: Seq<char>) -> JsonV {
    JsonV::Object(
        seq![
            ("file_name"@, JsonV::Str(
                match path_file_name_of(path) {
                    Some(n) => n,
                    None => "file"@,
                },
            )),
            ("content_type"@, JsonV::Str(detected_mime((path, None)))),
        ],
    )
}

/// Builds the body that asks for an upload URL for the file at `path`.
pub fn upload_request(path: &str) -> (b: Json)
    ensures
        b@ == upload_request_of(path@),
{
    let found = path_file_name(path);
    let name = match found {
        Some(n) => n,
        None => "file".to_owned(),
    };
    assert(name@ == match path_file_name_of(path@) {
        Some(n) => n,
        None => "file"@,
    });
    let f = FileUpload::new(path.to_owned());
    let mime = f.detect_mime_type();
    assert(f@ == (path@, None::<Seq<char>>));
    let b = object2("file_name", Json::Str(name), "content_type", Json::Str(mime));
    assert(b@->Object_0 =~= upload_request_of(path@)->Object_0);
    b
}

/// The upload request names the file by the path's last component: a name
/// written after a directory prefix, or alone, is sent as it is.
pub proof fn law_upload_request_names_file(dir: Seq<char>, name: Seq<char>)
    requires
        crate::paths::is_dir_prefix(dir),
        name.len() > 0,
        name != seq!['.'],
        name != seq!['.', '.'],
        forall|j: int| 0 <= j < name.len() ==> name[j] != '/',
    ensures
        upload_request_of(dir + name) == JsonV::Object(
            seq![
                ("file_name"@, JsonV::Str(name)),
                ("content_type"@, JsonV::Str(detected_mime((dir + name, None)))),
            ],
        ),
{
    crate::paths::law_file_name_is_last_component(dir, name);
    assert(upload_request_of(dir + name)->Object_0 =~= seq![
        ("file_name"@, JsonV::Str(name)),
        ("content_type"@, JsonV::Str(detected_mime((dir + name, None)))),
    ]);
}

/// What is known of a Fal model's schema: its name, a pointer to its
/// documentation, and a generic object schema.
pub open spec fn schema_for(model: Seq<char>) -> ModelSchemaV {
    ModelSchemaV {
        name: model,
        description: Some(
            "Fal model: "@ + model + ". See https://fal.ai/models/"@ + model + " for documentation."@,
        ),
        input_schema: JsonV::Object(
            seq![
                ("type"@, JsonV::Str("object"@)),
                ("description"@, JsonV::Str(
                    "Input schema varies by model. Visit https://fal.ai/models for details."@,
                )),
            ],
        ),
        output_schema: None,
    }
}

/// The schema Fal has for `model`.
pub fn fal_schema(model: &str) -> (s: ModelSchema)
    ensures
        s@ == schema_for(model@),
{
    let mut d = concat3("Fal model: ", model, ". See https://fal.ai/models/");
    d.append(model);
    d.append(" for documentation.");
    let input = object2(
        "type",
        Json::Str("object".to_owned()),
        "description",
        Json::Str("Input schema varies by model. Visit https://fal.ai/models for details.".to_owned()),
    );
    ModelSchema { name: model.to_owned(), description: Some(d), input_schema: input, output_schema: None }
}

/// A listing entry with every field given.
pub open spec fn entry(id: Seq<char>, name: Seq<char>, desc: Seq<char>, owner: Seq<char>, url: Seq<char>) -> ModelInfoV {
    ModelInfoV { id, name, description: Some(desc), owner: Some(owner), url: Some(url) }
}

/// Builds a listing entry with every field given.
pub fn make_entry(id: &str, name: &str, desc: &str, owner: &str, url: &str) -> (m: ModelInfo)
    ensures
        m@ == entry(id@, name@, desc@, owner@, url@),
{
    ModelInfo {
        id: id.to_owned(),
        name: name.to_owned(),
        description: Some(desc.to_owned()),
        owner: Some(owner.to_owned()),
        url: Some(url.to_owned()),
    }
}

/// The models that Fal's listing offers, Fal having no listing API.
pub open spec fn catalog() -> Seq<ModelInfoV> {
    seq![
        entry("fal-ai/flux/dev"@, "FLUX.1 [dev]"@, "High-quality image generation model"@, "fal-ai"@,
            "https://fal.ai/models/fal-ai/flux/dev"@),
        entry("fal-ai/flux/schnell"@, "FLUX.1 [schnell]"@, "Fast image generation model"@, "fal-ai"@,
            "https://fal.ai/models/fal-ai/flux/schnell"@),
        entry("fal-ai/stable-diffusion-v3-medium"@, "Stable Diffusion 3 Medium"@,
            "Stable Diffusion 3 medium model"@, "fal-ai"@,
            "https://fal.ai/models/fal-ai/stable-diffusion-v3-medium"@),
        entry("fal-ai/whisper"@, "Whisper"@, "Speech-to-text model"@, "fal-ai"@,
            "https://fal.ai/models/fal-ai/whisper"@),
        entry("fal-ai/sadtalker"@, "SadTalker"@, "Audio-driven talking head synthesis"@, "fal-ai"@,
            "https://fal.ai/models/fal-ai/sadtalker"@),
    ]
}

/// The models that a Fal listing shows: the first `limit` of the catalog,
/// whatever the query.
pub fn fal_models(limit: usize) -> (v: Vec<ModelInfo>)
    ensures
        infos_view(v@) == first_n(catalog(), limit as nat),
        v@.len() <= limit,
{
    let mut v: Vec<ModelInfo> = Vec::new();
    v.push(make_entry("fal-ai/flux/dev", "FLUX.1 [dev]", "High-quality image generation model", "fal-ai",
        "https://fal.ai/models/fal-ai/flux/dev"));
    v.push(make_entry("fal-ai/flux/schnell", "FLUX.1 [schnell]", "Fast image generation model", "fal-ai",
        "https://fal.ai/models/fal-ai/flux/schnell"));
    v.push(make_entry("fal-ai/stable-diffusion-v3-medium", "Stable Diffusion 3 Medium",
        "Stable Diffusion 3 medium model", "fal-ai",
        "https://fal.ai/models/fal-ai/stable-diffusion-v3-medium"));
    v.push(make_entry("fal-ai/whisper", "Whisper", "Speech-to-text model", "fal-ai",
        "https://fal.ai/models/fal-ai/whisper"));
    v.push(make_entry("fal-ai/sadtalker", "SadTalker", "Audio-driven talking head synthesis", "fal-ai",
        "https://fal.ai/models/fal-ai/sadtalker"));
    assert(infos_view(v@) =~= catalog());
    keep_first(&mut v, limit);
    v
}

} // verus!
