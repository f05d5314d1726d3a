//! WaveSpeed: its endpoints, its status words, and how its answers become
//! prediction results, schemas and model listings.

use vstd::prelude::*;
use crate::config::{clone_opt_string, opt_view};
use crate::json::{object2, Json, JsonV};
use crate::providers::fal::{entry, make_entry};
use crate::providers::{
    first_n, infos_view, keep_first, opt_json, percent_encoded, url_encode, ModelInfo, ModelInfoV,
    ModelSchema, ModelSchemaV, PredictionMetrics, PredictionResult, PredictionResultV,
    PredictionStatus, PredictionUrls,
};
use crate::text::{ascii_lower_seq, concat2, concat3, eq_ascii_lower};

verus! {

/// The root of WaveSpeed's API.
pub open spec fn api_base() -> Seq<char> {
    "https://api.wavespeed.ai/v1"@
}

fn api_base_str() -> (s: &'static str)
    ensures
        s@ == api_base(),
{
    "https://api.wavespeed.ai/v1"
}

/// The `Authorization` header value for an API key.
pub fn auth_header_value(api_key: &str) -> (v: String)
    ensures
        v@ == "Bearer "@ + api_key@,
{
    concat2("Bearer ", api_key)
}

/// The endpoint that creates predictions.
pub fn predictions_url() -> (u: String)
    ensures
        u@ == api_base() + "/predictions"@,
{
    concat2(api_base_str(), "/predictions")
}

/// The endpoint of one prediction.
pub open spec fn prediction_url_of(id: Seq<char>) -> Seq<char> {
    api_base() + "/predictions/"@ + id
}

/// The endpoint of one prediction.
pub fn prediction_url(id: &str) -> (u: String)
    ensures
        u@ == prediction_url_of(id@),
{
    concat3(api_base_str(), "/predictions/", id)
}

/// The endpoint of a model.
pub fn model_url(model: &str) -> (u: String)
    ensures
        u@ == api_base() + "/models/"@ + model@,
{
    concat3(api_base_str(), "/models/", model)
}

/// The endpoint that lists models, searching for `query` if one is given.
pub fn models_url(query: Option<&str>) -> (u: String)
    ensures
        u@ == match query {
            Some(q) => api_base() + "/models?search="@ + percent_encoded(vstd::utf8::encode_utf8(q@)),
            None => api_base() + "/models"@,
        },
{
    match query {
        Some(q) => {
            let e = url_encode(q);
            concat3(api_base_str(), "/models?search=", e.as_str())
        },
        None => concat2(api_base_str(), "/models"),
    }
}

/// The body that creates a prediction.
pub fn prediction_body(model: &str, input: Json) -> (b: Json)
    ensures
        b@ == JsonV::Object(seq![("model"@, JsonV::Str(model@)), ("input"@, input@)]),
{
    object2("model", Json::Str(model.to_owned()), "input", input)
}

/// The state that a WaveSpeed status word stands for, read without regard
/// to ASCII case; an unknown word counts as processing.
pub open spec fn status_of(s: Seq<char>) -> PredictionStatus {
    let w = ascii_lower_seq(s);
    if w == "pending"@ || w == "starting"@ {
        PredictionStatus::Starting
    } else if w == "processing"@ || w == "running"@ {
        PredictionStatus::Processing
    } else if w == "succeeded"@ || w == "completed"@ || w == "success"@ {
        PredictionStatus::Succeeded
    } else if w == "failed"@ || w == "error"@ {
        PredictionStatus::Failed
    } else if w == "canceled"@ || w == "cancelled"@ {
        PredictionStatus::Canceled
    } else {
        PredictionStatus::Processing
    }
}

/// Reads a WaveSpeed status word.
pub fn parse_status(s: &str) -> (st: PredictionStatus)
    ensures
        st == status_of(s@),
{
    if eq_ascii_lower(s, "pending") || eq_ascii_lower(s, "starting") {
        PredictionStatus::Starting
    } else if eq_ascii_lower(s, "processing") || eq_ascii_lower(s, "running") {
        PredictionStatus::Processing
    } else if eq_ascii_lower(s, "succeeded") || eq_ascii_lower(s, "completed") || eq_ascii_lower(
        s,
        "success",
    ) {
        PredictionStatus::Succeeded
    } else if eq_ascii_lower(s, "failed") || eq_ascii_lower(s, "error") {
        PredictionStatus::Failed
    } else if eq_ascii_lower(s, "canceled") || eq_ascii_lower(s, "cancelled") {
        PredictionStatus::Canceled
    } else {
        PredictionStatus::Processing
    }
}

/// Timings as WaveSpeed reports them (bit patterns of doubles, in seconds).
pub struct WaveSpeedMetrics {
    pub inference_time: Option<u64>,
    pub total_time: Option<u64>,
}

/// A prediction as WaveSpeed describes it.
pub struct WaveSpeedPrediction {
    pub id: String,
    pub status: String,
    pub output: Option<Json>,
    pub error: Option<String>,
    pub metrics: Option<WaveSpeedMetrics>,
}

/// The result that a WaveSpeed prediction stands for; it can be read back
/// at its prediction endpoint and has no cancel URL.
pub open spec fn prediction_result_of(p: WaveSpeedPrediction) -> PredictionResultV {
    PredictionResultV {
        id: p.id@,
        status: status_of(p.status@),
        output: opt_json(p.output),
        error: opt_view(p.error),
        metrics: match p.metrics {
            Some(m) => Some(PredictionMetrics { predict_time: m.inference_time, total_time: m.total_time }),
            None => None,
        },
        urls: Some((Some(prediction_url_of(p.id@)), None)),
    }
}

impl WaveSpeedPrediction {
    /// The prediction as a result.
    pub fn into_prediction_result(self) -> (r: PredictionResult)
        ensures
            r@ == prediction_result_of(self),
    {
        let status = parse_status(self.status.as_str());
        let get = prediction_url(self.id.as_str());
        PredictionResult {
            id: self.id,
            status,
            output: self.output,
            error: self.error,
            metrics: match self.metrics {
                Some(m) => Some(PredictionMetrics { predict_time: m.inference_time, total_time: m.total_time }),
                None => None,
            },
            urls: Some(PredictionUrls { get: Some(get), cancel: None }),
        }
    }
}

/// A model as WaveSpeed describes it.
pub struct WaveSpeedModel {
    pub name: Option<String>,
    pub description: Option<String>,
    pub input_schema: Option<Json>,
    pub output_schema: Option<Json>,
}

/// The input schema shown when WaveSpeed gives none for a model.
pub open spec fn default_input_schema() -> JsonV {
    JsonV::Object(
        seq![
            ("type"@, JsonV::Str("object"@)),
            ("description"@, JsonV::Str("See WaveSpeed documentation for input schema"@)),
        ],
    )
}

/// The schema of a model that WaveSpeed described: its name (the model's
/// reference when it gives none), its description and its schemas.
pub open spec fn schema_of(model: Seq<char>, m: WaveSpeedModel) -> ModelSchemaV {
    ModelSchemaV {
        name: match m.name {
            Some(n) => n@,
            None => model,
        },
        description: opt_view(m.description),
        input_schema: match m.input_schema {
            Some(s) => s@,
            None => default_input_schema(),
        },
        output_schema: opt_json(m.output_schema),
    }
}

/// The schema of a model that WaveSpeed described.
pub fn schema_from_model(model: &str, m: WaveSpeedModel) -> (s: ModelSchema)
    ensures
        s@ == schema_of(model@, m),
{
    let ghost m0 = m;
    let name = match m.name {
        Some(n) => n,
        None => model.to_owned(),
    };
    let input_schema = match m.input_schema {
        Some(s) => s,
        None => {
            let d = object2(
                "type",
                Json::Str("object".to_owned()),
                "description",
                Json::Str("See WaveSpeed documentation for input schema".to_owned()),
            );
            assert(d@->Object_0 =~= default_input_schema()->Object_0);
            d
        },
    };
    ModelSchema { name, description: m.description, input_schema, output_schema: m.output_schema }
}

/// The schema shown when WaveSpeed's description of a model cannot be read.
pub open spec fn fallback_schema_of(model: Seq<char>) -> ModelSchemaV {
    ModelSchemaV {
        name: model,
        description: Some("WaveSpeed model: "@ + model + ". See https://wavespeed.ai for documentation."@),
        input_schema: JsonV::Object(
            seq![
                ("type"@, JsonV::Str("object"@)),
                ("description"@, JsonV::Str(
                    "Input schema varies by model. Visit WaveSpeed documentation for details."@,
                )),
            ],
        ),
        output_schema: None,
    }
}

/// The schema shown when WaveSpeed's description of a model cannot be read.
pub fn fallback_schema(model: &str) -> (s: ModelSchema)
    ensures
        s@ == fallback_schema_of(model@),
{
    let d = concat3("WaveSpeed model: ", model, ". See https://wavespeed.ai for documentation.");
    let input = object2(
        "type",
        Json::Str("object".to_owned()),
        "description",
        Json::Str("Input schema varies by model. Visit WaveSpeed documentation for details.".to_owned()),
    );
    let s = ModelSchema { name: model.to_owned(), description: Some(d), input_schema: input, output_schema: None };
    assert(s@.input_schema->Object_0 =~= fallback_schema_of(model@).input_schema->Object_0);
    s
}

/// An entry of WaveSpeed's model listing.
pub struct WaveSpeedModelListItem {
    pub id: String,
    pub name: Option<String>,
    pub description: Option<String>,
    pub owner: Option<String>,
    pub url: Option<String>,
}

/// The listing entry that a WaveSpeed model stands for; a missing name is empty.
pub open spec fn info_of(item: WaveSpeedModelListItem) -> ModelInfoV {
    ModelInfoV {
        id: item.id@,
        name: match item.name {
            Some(n) => n@,
            None => Seq::empty(),
        },
        description: opt_view(item.description),
        owner: opt_view(item.owner),
        url: opt_view(item.url),
    }
}

/// The first `limit` models of a listing, as listing entries.
pub open spec fn infos_of(items: Seq<WaveSpeedModelListItem>, limit: nat) -> Seq<ModelInfoV> {
    let n = if limit < items.len() { limit } else { items.len() };
    Seq::new(n, |i: int| info_of(items[i]))
}

/// Turns a WaveSpeed model listing into at most `limit` listing entries.
pub fn infos_from_listing(items: Vec<WaveSpeedModelListItem>, limit: usize) -> (r: Vec<ModelInfo>)
    ensures
        infos_view(r@) == infos_of(items@, limit as nat),
{
    let ghost all = items@;
    let mut out: Vec<ModelInfo> = Vec::new();
    let mut i: usize = 0;
    while i < items.len() && i < limit
        invariant
            i <= items@.len(),
            i <= limit,
            items@ == all,
            out@.len() == i,
            forall|j: int| 0 <= j < i ==> (#[trigger] out@[j])@ == info_of(all[j]),
        decreases items@.len() - i,
    {
        let it = &items[i];
        let name = match &it.name {
            Some(n) => n.clone(),
            None => String::new(),
        };
        out.push(
            ModelInfo {
                id: it.id.clone(),
                name,
                description: clone_opt_string(&it.description),
                owner: clone_opt_string(&it.owner),
                url: clone_opt_string(&it.url),
            },
        );
        i = i + 1;
    }
    assert(infos_view(out@) =~= infos_of(all, limit as nat));
    out
}

/// The models shown when WaveSpeed's listing cannot be read.
pub open spec fn fallback_catalog() -> Seq<ModelInfoV> {
    seq![
        entry("wavespeed/flux-dev"@, "FLUX Dev"@, "FLUX image generation model"@, "wavespeed"@,
            "https://wavespeed.ai/models/flux-dev"@),
        entry("wavespeed/sd-xl"@, "Stable Diffusion XL"@, "Stable Diffusion XL model"@, "wavespeed"@,
            "https://wavespeed.ai/models/sd-xl"@),
    ]
}

/// The models shown when WaveSpeed's listing cannot be read: the first
/// `limit` of the fallback catalog.
pub fn fallback_models(limit: usize) -> (v: Vec<ModelInfo>)
    ensures
        infos_view(v@) == first_n(fallback_catalog(), limit as nat),
        v@.len() <= limit,
{
    let mut v: Vec<ModelInfo> = Vec::new();
    v.push(make_entry("wavespeed/flux-dev", "FLUX Dev", "FLUX image generation model", "wavespeed",
        "https://wavespeed.ai/models/flux-dev"));
    v.push(make_entry("wavespeed/sd-xl", "Stable Diffusion XL", "Stable Diffusion XL model", "wavespeed",
        "https://wavespeed.ai/models/sd-xl"));
    assert(infos_view(v@) =~= fallback_catalog());
    keep_first(&mut v, limit);
    v
}

/// Status words are read without regard to ASCII case.
pub proof fn law_status_ignores_case(s: Seq<char>)
    ensures
        status_of(s) == status_of(ascii_lower_seq(s)),
{
    crate::text::lemma_ascii_lower_idempotent(s);
}

} // verus!
