//! Replicate: its endpoints, request bodies, and how its answers become
//! prediction results, schemas and model listings.

use vstd::prelude::*;
use crate::config::{clone_opt_string, opt_view};
use crate::json::{member, as_text, object1, object2, Json, JsonV};
use crate::providers::{
    infos_view, opt_json, percent_encoded, url_encode, ModelInfo, ModelInfoV,
    ModelSchema, ModelSchemaV, PredictionMetrics, PredictionResult, PredictionResultV,
    PredictionStatus, PredictionUrls,
};
use crate::text::{char_range, concat2, concat3, find_char, text_eq};

verus! {

/// The root of Replicate's API.
pub open spec fn api_base() -> Seq<char> {
    "https://api.replicate.com/v1"@
}

fn api_base_str() -> (s: &'static str)
    ensures
        s@ == api_base(),
{
    "https://api.replicate.com/v1"
}

/// The `Authorization` header value for an API key.
pub fn auth_header_value(api_key: &str) -> (v: String)
    ensures
        v@ == "Token "@ + api_key@,
{
    concat2("Token ", api_key)
}

/// The endpoint that creates predictions.
pub fn predictions_url() -> (u: String)
    ensures
        u@ == api_base() + "/predictions"@,
{
    concat2(api_base_str(), "/predictions")
}

/// The endpoint of one prediction.
pub fn prediction_url(id: &str) -> (u: String)
    ensures
        u@ == api_base() + "/predictions/"@ + id@,
{
    concat3(api_base_str(), "/predictions/", id)
}

/// A model reference without its version: the text before the first `:`.
pub open spec fn model_path(model: Seq<char>) -> Seq<char> {
    match crate::text::first_index_of(model, ':') {
        Some(i) => model.take(i),
        None => model,
    }
}

/// The model reference without its version.
pub fn model_path_of(model: &str) -> (p: String)
    ensures
        p@ == model_path(model@),
{
    match find_char(model, ':') {
        Some(i) => {
            proof {
                lemma_first_index(model@, ':', i as int);
            }
            let p = char_range(model, 0, i);
            assert(model@.subrange(0, i as int) =~= model@.take(i as int));
            p
        },
        None => {
            let p = model.to_owned();
            p
        },
    }
}

/// The first index found by a scan is the one `first_index_of` names.
proof fn lemma_first_index(s: Seq<char>, c: char, i: int)
    requires
        0 <= i < s.len(),
        s[i] == c,
        forall|j: int| 0 <= j < i ==> s[j] != c,
    ensures
        crate::text::first_index_of(s, c) == Some(i),
{
    let k = choose|k: int| 0 <= k < s.len() && s[k] == c && forall|j: int| 0 <= j < k ==> s[j] != c;
    assert(k == i) by {
        if k < i {
        } else if k > i {
        }
    }
}

/// The endpoint of a model, for a reference that may carry a version.
pub fn model_url(model: &str) -> (u: String)
    ensures
        u@ == api_base() + "/models/"@ + model_path(model@),
{
    let p = model_path_of(model);
    concat3(api_base_str(), "/models/", p.as_str())
}

/// The endpoint that lists models, searching for `query` if one is given.
pub fn models_url(query: Option<&str>) -> (u: String)
    ensures
        u@ == match query {
            Some(q) => api_base() + "/models?query="@ + percent_encoded(vstd::utf8::encode_utf8(q@)),
            None => api_base() + "/models"@,
        },
{
    match query {
        Some(q) => {
            let e = url_encode(q);
            concat3(api_base_str(), "/models?query=", e.as_str())
        },
        None => concat2(api_base_str(), "/models"),
    }
}

/// A model reference as `run` reads it.
pub enum ModelRef {
    /// `owner/name:version`: the text before and after the first `:`.
    Versioned { model: String, version: String },
    /// `owner/name`: the latest version is looked up.
    Latest { model: String },
}

/// Splits a model reference at its first `:`.
pub fn parse_model_ref(model: &str) -> (r: ModelRef)
    ensures
        match crate::text::first_index_of(model@, ':') {
            Some(i) => r matches ModelRef::Versioned { model: m, version: v } && m@ == model@.take(i)
                && v@ == model@.skip(i + 1),
            None => r matches ModelRef::Latest { model: m } && m@ == model@,
        },
{
    match find_char(model, ':') {
        Some(i) => {
            proof {
                lemma_first_index(model@, ':', i as int);
            }
            let n = model.unicode_len();
            let m = char_range(model, 0, i);
            let v = char_range(model, i + 1, n);
            assert(model@.subrange(0, i as int) =~= model@.take(i as int));
            assert(model@.subrange(i + 1, n as int) =~= model@.skip(i + 1));
            ModelRef::Versioned { model: m, version: v }
        },
        None => {
            proof {
                crate::text::lemma_first_index_of(model@, ':');
            }
            ModelRef::Latest { model: model.to_owned() }
        },
    }
}

/// The body that creates a prediction: by version when one is known, else
/// by model name.
pub open spec fn prediction_body_of(version: Option<Seq<char>>, model: Seq<char>, input: JsonV) -> JsonV {
    match version {
        Some(v) => JsonV::Object(seq![("version"@, JsonV::Str(v)), ("input"@, input)]),
        None => JsonV::Object(seq![("model"@, JsonV::Str(model)), ("input"@, input)]),
    }
}

/// Builds the body that creates a prediction.
pub fn prediction_body(version: Option<String>, model: &str, input: Json) -> (b: Json)
    ensures
        b@ == prediction_body_of(opt_view(version), model@, input@),
{
    match version {
        Some(v) => object2("version", Json::Str(v), "input", input),
        None => object2("model", Json::Str(model.to_owned()), "input", input),
    }
}

/// The version named in a schema's input description, if it names one.
pub open spec fn schema_version(schema: ModelSchemaV) -> Option<Seq<char>> {
    match member(schema.input_schema, "version"@) {
        Some(v) => as_text(v),
        None => None,
    }
}

/// Reads the version that a schema names.
pub fn version_from_schema(schema: &ModelSchema) -> (v: Option<String>)
    ensures
        opt_view(v) == schema_version(schema@),
{
    match schema.input_schema.get("version") {
        Some(v) => match v.as_str() {
            Some(s) => Some(s.clone()),
            None => None,
        },
        None => None,
    }
}

/// The state that a Replicate status word stands for; an unknown word
/// counts as processing.
pub open spec fn status_of(s: Seq<char>) -> PredictionStatus {
    if s == "starting"@ {
        PredictionStatus::Starting
    } else if s == "processing"@ {
        PredictionStatus::Processing
    } else if s == "succeeded"@ {
        PredictionStatus::Succeeded
    } else if s == "failed"@ {
        PredictionStatus::Failed
    } else if s == "canceled"@ {
        PredictionStatus::Canceled
    } else {
        PredictionStatus::Processing
    }
}

/// Reads a Replicate status word.
pub fn parse_status(s: &str) -> (st: PredictionStatus)
    ensures
        st == status_of(s@),
{
    if text_eq(s, "starting") {
        PredictionStatus::Starting
    } else if text_eq(s, "processing") {
        PredictionStatus::Processing
    } else if text_eq(s, "succeeded") {
        PredictionStatus::Succeeded
    } else if text_eq(s, "failed") {
        PredictionStatus::Failed
    } else if text_eq(s, "canceled") {
        PredictionStatus::Canceled
    } else {
        PredictionStatus::Processing
    }
}

/// Timings as Replicate reports them (bit patterns of doubles, in seconds).
pub struct ReplicateMetrics {
    pub predict_time: Option<u64>,
    pub total_time: Option<u64>,
}

/// The URLs of a Replicate prediction.
pub struct ReplicateUrls {
    pub get: String,
    pub cancel: String,
}

/// A prediction as Replicate describes it.
pub struct ReplicatePrediction {
    pub id: String,
    pub status: String,
    pub output: Option<Json>,
    pub error: Option<String>,
    pub metrics: Option<ReplicateMetrics>,
    pub urls: Option<ReplicateUrls>,
}

/// The result that a Replicate prediction stands for.
pub open spec fn prediction_result_of(p: ReplicatePrediction) -> PredictionResultV {
    PredictionResultV {
        id: p.id@,
        status: status_of(p.status@),
        output: opt_json(p.output),
        error: opt_view(p.error),
        metrics: match p.metrics {
            Some(m) => Some(PredictionMetrics { predict_time: m.predict_time, total_time: m.total_time }),
            None => None,
        },
        urls: match p.urls {
            Some(u) => Some((Some(u.get@), Some(u.cancel@))),
            None => None,
        },
    }
}

impl ReplicatePrediction {
    /// The prediction as a result.
    pub fn into_prediction_result(self) -> (r: PredictionResult)
        ensures
            r@ == prediction_result_of(self),
    {
        let status = parse_status(self.status.as_str());
        PredictionResult {
            id: self.id,
            status,
            output: self.output,
            error: self.error,
            metrics: match self.metrics {
                Some(m) => Some(PredictionMetrics { predict_time: m.predict_time, total_time: m.total_time }),
                None => None,
            },
            urls: match self.urls {
                Some(u) => Some(PredictionUrls { get: Some(u.get), cancel: Some(u.cancel) }),
                None => None,
            },
        }
    }
}

/// A version of a Replicate model.
pub struct ReplicateVersion {
    pub id: String,
    pub openapi_schema: Json,
}

impl Default for ReplicateVersion {
    fn default() -> (v: Self)
        ensures
            v.id@ == Seq::<char>::empty(),
            v.openapi_schema@ == JsonV::Null,
    {
        ReplicateVersion { id: String::new(), openapi_schema: Json::Null }
    }
}

/// A model as Replicate describes it.
pub struct ReplicateModel {
    pub name: String,
    pub description: Option<String>,
    pub owner: String,
    pub latest_version: Option<ReplicateVersion>,
}

/// `components.schemas.<part>` of an OpenAPI document.
pub open spec fn openapi_part(doc: JsonV, part: Seq<char>) -> Option<JsonV> {
    match member(doc, "components"@) {
        Some(c) => match member(c, "schemas"@) {
            Some(s) => member(s, part),
            None => None,
        },
        None => None,
    }
}

/// The schema that a Replicate model stands for: the `Input` and `Output`
/// parts of its latest version's OpenAPI document; without an `Input` part,
/// an object that names the version.
pub open spec fn schema_of(m: ReplicateModel) -> ModelSchemaV {
    let (vid, doc) = match m.latest_version {
        Some(v) => (v.id@, v.openapi_schema@),
        None => (Seq::<char>::empty(), JsonV::Null),
    };
    ModelSchemaV {
        name: m.name@,
        description: opt_view(m.description),
        input_schema: match openapi_part(doc, "Input"@) {
            Some(s) => s,
            None => JsonV::Object(seq![("version"@, JsonV::Str(vid))]),
        },
        output_schema: openapi_part(doc, "Output"@),
    }
}

fn find_part<'a>(doc: &'a Json, part: &str) -> (r: Option<&'a Json>)
    ensures
        match r {
            Some(v) => openapi_part(doc@, part@) == Some(v@),
            None => openapi_part(doc@, part@) is None,
        },
{
    match doc.get("components") {
        Some(c) => match c.get("schemas") {
            Some(s) => s.get(part),
            None => None,
        },
        None => None,
    }
}

/// The schema of a Replicate model.
pub fn schema_from_model(m: ReplicateModel) -> (s: ModelSchema)
    ensures
        s@ == schema_of(m),
{
    let ghost m0 = m;
    let latest = match m.latest_version {
        Some(v) => v,
        None => ReplicateVersion::default(),
    };
    let input_schema = match find_part(&latest.openapi_schema, "Input") {
        Some(v) => v.deep_clone(),
        None => object1("version", Json::Str(latest.id.clone())),
    };
    let output_schema = match find_part(&latest.openapi_schema, "Output") {
        Some(v) => Some(v.deep_clone()),
        None => None,
    };
    let s = ModelSchema { name: m.name, description: m.description, input_schema, output_schema };
    assert(s@ == schema_of(m0));
    s
}

/// An entry of Replicate's model listing.
pub struct ReplicateModelListItem {
    pub name: String,
    pub owner: String,
    pub description: Option<String>,
    pub url: Option<String>,
}

/// The listing entry that a Replicate model stands for.
pub open spec fn info_of(item: ReplicateModelListItem) -> ModelInfoV {
    ModelInfoV {
        id: item.owner@ + "/"@ + item.name@,
        name: item.name@,
        description: opt_view(item.description),
        owner: Some(item.owner@),
        url: opt_view(item.url),
    }
}

/// The first `limit` models of a listing, as listing entries.
pub open spec fn infos_of(items: Seq<ReplicateModelListItem>, limit: nat) -> Seq<ModelInfoV> {
    let n = if limit < items.len() { limit } else { items.len() };
    Seq::new(n, |i: int| info_of(items[i]))
}

/// Turns a Replicate model listing into at most `limit` listing entries.
pub fn infos_from_listing(items: Vec<ReplicateModelListItem>, limit: usize) -> (r: Vec<ModelInfo>)
    ensures
        infos_view(r@) == infos_of(items@, limit as nat),
{
    let ghost all = items@;
    let mut out: Vec<ModelInfo> = Vec::new();
    let mut i: usize = 0;
    while i < items.len() && i < limit
        invariant
            i <= items@.len(),
            i <= limit,
            items@ == all,
            out@.len() == i,
            forall|j: int| 0 <= j < i ==> (#[trigger] out@[j])@ == info_of(all[j]),
        decreases items@.len() - i,
    {
        let it = &items[i];
        let id = concat3(it.owner.as_str(), "/", it.name.as_str());
        out.push(
            ModelInfo {
                id,
                name: it.name.clone(),
                description: clone_opt_string(&it.description),
                owner: Some(it.owner.clone()),
                url: clone_opt_string(&it.url),
            },
        );
        i = i + 1;
    }
    assert(infos_view(out@) =~= infos_of(all, limit as nat));
    out
}

/// A versioned reference is exactly its model path, a colon and its version.
pub proof fn law_model_ref_parts(model: Seq<char>)
    ensures
        match crate::text::first_index_of(model, ':') {
            Some(i) => model == model_path(model) + seq![':'] + model.skip(i + 1),
            None => model_path(model) == model,
        },
{
    crate::text::lemma_first_index_of(model, ':');
    match crate::text::first_index_of(model, ':') {
        Some(i) => {
            assert(model =~= model.take(i) + seq![':'] + model.skip(i + 1));
        },
        None => {},
    }
}

/// A listing holds at most `limit` entries and at most as many as the
/// provider returned, in the provider's order.
pub proof fn law_listing_limit(items: Seq<ReplicateModelListItem>, limit: nat)
    ensures
        infos_of(items, limit).len() <= limit,
        infos_of(items, limit).len() <= items.len(),
        infos_of(items, limit).len() == limit || infos_of(items, limit).len() == items.len(),
        forall|i: int| 0 <= i < infos_of(items, limit).len() ==> #[trigger] infos_of(items, limit)[i]
            == info_of(items[i]),
{
}

} // verus!
