use codex_rs::json::{Json, object2};
use codex_rs::providers::fal;
use codex_rs::providers::replicate;
use codex_rs::providers::wavespeed;
use codex_rs::providers::{
    encode_data_uri, has_timed_out, insert_uploads, mime_type_for_extension, next_poll_interval,
    parse_file_arg, parse_file_args, poll_action, timed_out_message, FileArgError,
    FileUpload, PollAction, PredictionStatus, FIRST_POLL_INTERVAL_MS,
};

fn text(j: &Json) -> Option<&str> {
    match j {
        Json::Str(s) => Some(s.as_str()),
        _ => None,
    }
}

#[test]
fn mime_from_extension() {
    assert_eq!(FileUpload::new("photo.JPG".into()).detect_mime_type(), "image/jpeg");
    assert_eq!(FileUpload::new("a/b/c.jpeg".into()).detect_mime_type(), "image/jpeg");
    assert_eq!(FileUpload::new("mask.png".into()).detect_mime_type(), "image/png");
    assert_eq!(FileUpload::new("x.gif".into()).detect_mime_type(), "image/gif");
    assert_eq!(FileUpload::new("x.webp".into()).detect_mime_type(), "image/webp");
    assert_eq!(FileUpload::new("speech.mp3".into()).detect_mime_type(), "audio/mpeg");
    assert_eq!(FileUpload::new("s.WAV".into()).detect_mime_type(), "audio/wav");
    assert_eq!(FileUpload::new("v.mp4".into()).detect_mime_type(), "video/mp4");
    assert_eq!(FileUpload::new("v.webm".into()).detect_mime_type(), "video/webm");
    assert_eq!(FileUpload::new("d.pdf".into()).detect_mime_type(), "application/pdf");
    assert_eq!(FileUpload::new("notes.txt".into()).detect_mime_type(), "text/plain");
    assert_eq!(FileUpload::new("params.json".into()).detect_mime_type(), "application/json");
    assert_eq!(FileUpload::new("archive.tar.gz".into()).detect_mime_type(), "application/octet-stream");
    assert_eq!(FileUpload::new("Makefile".into()).detect_mime_type(), "application/octet-stream");
    assert_eq!(FileUpload::new(".png".into()).detect_mime_type(), "application/octet-stream");
}

#[test]
fn mime_follows_the_final_component() {
    assert_eq!(FileUpload::new("dir.png/file".into()).detect_mime_type(), "application/octet-stream");
    assert_eq!(FileUpload::new("a/b.PNG/".into()).detect_mime_type(), "image/png");
    assert_eq!(FileUpload::new("notes.txt/.".into()).detect_mime_type(), "text/plain");
    assert_eq!(FileUpload::new("x.pdf/..".into()).detect_mime_type(), "application/octet-stream");
    assert_eq!(FileUpload::new(".hidden.json".into()).detect_mime_type(), "application/json");
    assert_eq!(FileUpload::new("trailing.".into()).detect_mime_type(), "application/octet-stream");
}

#[test]
fn given_mime_type_wins() {
    let f = FileUpload::new("photo.jpg".into()).with_mime_type("image/x-custom".to_string());
    assert_eq!(f.detect_mime_type(), "image/x-custom");
}

#[test]
fn mime_for_bare_extension() {
    assert_eq!(mime_type_for_extension(Some("Mp4")), "video/mp4");
    assert_eq!(mime_type_for_extension(None), "application/octet-stream");
}

#[test]
fn file_arg_split_at_first_equals() {
    assert_eq!(parse_file_arg("image=./a=b.png"), Some(("image".to_string(), "./a=b.png".to_string())));
    assert_eq!(parse_file_arg("=x"), Some(("".to_string(), "x".to_string())));
    assert_eq!(parse_file_arg("image"), None);
}

#[test]
fn file_args_errors() {
    let r = parse_file_args(&vec!["noequals".to_string()]);
    match r {
        Err(e) => {
            assert!(matches!(&e, FileArgError::InvalidFormat(a) if a == "noequals"));
            assert_eq!(e.message(), "Invalid file argument format: 'noequals'. Expected 'param_name=path'");
        }
        Ok(_) => panic!("expected an error"),
    }
    let r = parse_file_args(&vec!["image=/definitely/not/here.png".to_string()]);
    match r {
        Err(e) => {
            assert!(matches!(&e, FileArgError::NotFound(p) if p == "/definitely/not/here.png"));
            assert_eq!(e.message(), "File not found: /definitely/not/here.png");
        }
        Ok(_) => panic!("expected an error"),
    }
}

#[test]
fn file_args_later_name_replaces_earlier() {
    let args = vec![
        "doc=/".to_string(),
        "other=.".to_string(),
        "doc=.".to_string(),
    ];
    let files = parse_file_args(&args).ok().expect("files exist");
    assert_eq!(files.len(), 2);
    assert_eq!(files.get("doc").map(|f| f.path.clone()), Some(".".to_string()));
    assert_eq!(files.get("other").map(|f| f.path.clone()), Some(".".to_string()));
    assert_eq!(files.entries()[0].0, "doc");
    assert!(files.get("doc").map(|f| f.mime_type.is_none()).unwrap_or(false));
    assert!(parse_file_args(&vec![]).ok().expect("no files").is_empty());
}

#[test]
fn file_args_stop_at_first_bad_argument() {
    let args = vec!["doc=/".to_string(), "bad".to_string(), "x=/no/such/file".to_string()];
    assert!(matches!(parse_file_args(&args), Err(FileArgError::InvalidFormat(a)) if a == "bad"));
    let args = vec!["x=/no/such/file".to_string(), "bad".to_string()];
    assert!(matches!(parse_file_args(&args), Err(FileArgError::NotFound(p)) if p == "/no/such/file"));
}

#[test]
fn data_uri_of_content() {
    assert_eq!(encode_data_uri("a.txt", b"hi"), "data:text/plain;base64,aGk=");
    assert_eq!(encode_data_uri("x.png", b"abc"), "data:image/png;base64,YWJj");
    assert_eq!(encode_data_uri("blob", b""), "data:application/octet-stream;base64,");
    assert_eq!(encode_data_uri("blob", &[251, 255]), "data:application/octet-stream;base64,+/8=");
    assert_eq!(encode_data_uri("x.gif", &[0, 16, 131, 16, 81, 135]), "data:image/gif;base64,ABCDEFGH");
}

#[test]
fn percent_encoding_of_queries() {
    assert_eq!(
        codex_rs::providers::replicate::models_url(Some("a-b_c.d~e")),
        "https://api.replicate.com/v1/models?query=a-b_c.d~e"
    );
    assert_eq!(
        codex_rs::providers::wavespeed::models_url(Some("é/?")),
        "https://api.wavespeed.ai/v1/models?search=%C3%A9%2F%3F"
    );
}

#[test]
fn poll_schedule() {
    let mut i = FIRST_POLL_INTERVAL_MS;
    let mut seen = vec![i];
    for _ in 0..5 {
        i = next_poll_interval(i);
        seen.push(i);
    }
    assert_eq!(seen, vec![500, 1000, 2000, 4000, 5000, 5000]);
}

#[test]
fn timeouts() {
    assert!(!has_timed_out(300_000_000_000, 300));
    assert!(has_timed_out(300_000_000_001, 300));
    assert_eq!(poll_action(0, 0), PollAction::Fetch);
    assert_eq!(poll_action(1, 0), PollAction::GiveUp);
    assert_eq!(timed_out_message("Prediction", 300), "Prediction timed out after 300 seconds");
    assert_eq!(timed_out_message("Request", 0), "Request timed out after 0 seconds");
}

#[test]
fn terminal_states() {
    assert!(PredictionStatus::Succeeded.is_terminal());
    assert!(PredictionStatus::Failed.is_terminal());
    assert!(PredictionStatus::Canceled.is_terminal());
    assert!(!PredictionStatus::Starting.is_terminal());
    assert!(!PredictionStatus::Processing.is_terminal());
}

#[test]
fn uploads_go_into_object_input() {
    let mut input = Json::Object(vec![("prompt".to_string(), Json::Str("cat".to_string()))]);
    insert_uploads(&mut input, vec![
        ("image".to_string(), "data:a".to_string()),
        ("prompt".to_string(), "data:b".to_string()),
    ]);
    assert_eq!(input.get("image").and_then(text), Some("data:a"));
    assert_eq!(input.get("prompt").and_then(text), Some("data:b"));
    let mut not_object = Json::Str("x".to_string());
    insert_uploads(&mut not_object, vec![("image".to_string(), "data:a".to_string())]);
    assert_eq!(text(&not_object), Some("x"));
}

#[test]
fn replicate_urls_and_refs() {
    assert_eq!(replicate::predictions_url(), "https://api.replicate.com/v1/predictions");
    assert_eq!(replicate::prediction_url("abc"), "https://api.replicate.com/v1/predictions/abc");
    assert_eq!(replicate::model_url("owner/name:v1"), "https://api.replicate.com/v1/models/owner/name");
    assert_eq!(replicate::model_url("owner/name"), "https://api.replicate.com/v1/models/owner/name");
    assert_eq!(replicate::models_url(None), "https://api.replicate.com/v1/models");
    assert_eq!(
        replicate::models_url(Some("stable diffusion")),
        "https://api.replicate.com/v1/models?query=stable%20diffusion"
    );
    assert_eq!(replicate::auth_header_value("k"), "Token k");
    match replicate::parse_model_ref("owner/name:ver:x") {
        replicate::ModelRef::Versioned { model, version } => {
            assert_eq!(model, "owner/name");
            assert_eq!(version, "ver:x");
        }
        _ => panic!("expected a version"),
    }
    assert!(matches!(replicate::parse_model_ref("owner/name"), replicate::ModelRef::Latest { model } if model == "owner/name"));
}

#[test]
fn replicate_request_bodies() {
    let b = replicate::prediction_body(Some("v1".to_string()), "m", Json::Null);
    assert_eq!(b.get("version").and_then(text), Some("v1"));
    assert!(b.get("model").is_none());
    assert!(matches!(b.get("input"), Some(Json::Null)));
    let b = replicate::prediction_body(None, "owner/m", Json::Bool(true));
    assert_eq!(b.get("model").and_then(text), Some("owner/m"));
    assert!(matches!(b.get("input"), Some(Json::Bool(true))));
}

#[test]
fn replicate_status_words() {
    assert_eq!(replicate::parse_status("starting"), PredictionStatus::Starting);
    assert_eq!(replicate::parse_status("processing"), PredictionStatus::Processing);
    assert_eq!(replicate::parse_status("succeeded"), PredictionStatus::Succeeded);
    assert_eq!(replicate::parse_status("failed"), PredictionStatus::Failed);
    assert_eq!(replicate::parse_status("canceled"), PredictionStatus::Canceled);
    assert_eq!(replicate::parse_status("Succeeded"), PredictionStatus::Processing);
    assert_eq!(replicate::parse_status("queued"), PredictionStatus::Processing);
}

#[test]
fn replicate_prediction_to_result() {
    let p = replicate::ReplicatePrediction {
        id: "p1".to_string(),
        status: "succeeded".to_string(),
        output: Some(Json::Str("https://x/out.png".to_string())),
        error: None,
        metrics: Some(replicate::ReplicateMetrics { predict_time: Some(1.5f64.to_bits()), total_time: None }),
        urls: Some(replicate::ReplicateUrls { get: "g".to_string(), cancel: "c".to_string() }),
    };
    let r = p.into_prediction_result();
    assert_eq!(r.id, "p1");
    assert_eq!(r.status, PredictionStatus::Succeeded);
    assert_eq!(r.metrics.unwrap().predict_time, Some(1.5f64.to_bits()));
    let urls = r.urls.unwrap();
    assert_eq!(urls.get.as_deref(), Some("g"));
    assert_eq!(urls.cancel.as_deref(), Some("c"));
}

#[test]
fn replicate_schema_from_openapi() {
    let input = object2("type", Json::Str("object".to_string()), "title", Json::Str("Input".to_string()));
    let doc = Json::Object(vec![(
        "components".to_string(),
        Json::Object(vec![("schemas".to_string(), Json::Object(vec![("Input".to_string(), input)]))]),
    )]);
    let m = replicate::ReplicateModel {
        name: "sdxl".to_string(),
        description: Some("d".to_string()),
        owner: "stability-ai".to_string(),
        latest_version: Some(replicate::ReplicateVersion { id: "v9".to_string(), openapi_schema: doc }),
    };
    let s = replicate::schema_from_model(m);
    assert_eq!(s.name, "sdxl");
    assert_eq!(s.input_schema.get("title").and_then(text), Some("Input"));
    assert!(s.output_schema.is_none());
    let v = replicate::version_from_schema(&s);
    assert_eq!(v, None);

    let m = replicate::ReplicateModel {
        name: "n".to_string(),
        description: None,
        owner: "o".to_string(),
        latest_version: Some(replicate::ReplicateVersion { id: "v9".to_string(), openapi_schema: Json::Null }),
    };
    let s = replicate::schema_from_model(m);
    assert_eq!(replicate::version_from_schema(&s), Some("v9".to_string()));

    let m = replicate::ReplicateModel { name: "n".to_string(), description: None, owner: "o".to_string(), latest_version: None };
    let s = replicate::schema_from_model(m);
    assert_eq!(replicate::version_from_schema(&s), Some("".to_string()));
}

#[test]
fn replicate_listing_takes_limit() {
    let item = |n: &str| replicate::ReplicateModelListItem {
        name: n.to_string(),
        owner: "own".to_string(),
        description: None,
        url: None,
    };
    let infos = replicate::infos_from_listing(vec![item("a"), item("b"), item("c")], 2);
    assert_eq!(infos.len(), 2);
    assert_eq!(infos[0].id, "own/a");
    assert_eq!(infos[0].name, "a");
    assert_eq!(infos[1].owner.as_deref(), Some("own"));
    assert_eq!(replicate::infos_from_listing(vec![item("a")], 20).len(), 1);
    assert_eq!(replicate::infos_from_listing(vec![item("a")], 0).len(), 0);
}

#[test]
fn fal_urls_and_results() {
    assert_eq!(fal::submit_url("fal-ai/flux/dev"), "https://queue.fal.run/fal-ai/flux/dev");
    assert_eq!(fal::status_url("m", "r1"), "https://queue.fal.run/m/requests/r1/status");
    assert_eq!(fal::result_url("m", "r1"), "https://queue.fal.run/m/requests/r1");
    assert_eq!(fal::cancel_url("m", "r1"), "https://queue.fal.run/m/requests/r1/cancel");
    assert_eq!(fal::auth_header_value("k"), "Key k");
    assert_eq!(fal::upload_api_url(), "https://rest.fal.run/storage/upload/url");
    let r = fal::submitted_result("r1", "m");
    assert_eq!(r.status, PredictionStatus::Starting);
    let urls = r.urls.unwrap();
    assert_eq!(urls.get.as_deref(), Some("https://queue.fal.run/m/requests/r1"));
    assert_eq!(urls.cancel.as_deref(), Some("https://queue.fal.run/m/requests/r1/cancel"));
    let done = fal::completed_result("r1", fal::FalResult { data: Json::Bool(true), metrics: None });
    assert_eq!(done.status, PredictionStatus::Succeeded);
    assert!(matches!(done.output, Some(Json::Bool(true))));
}

#[test]
fn fal_queue_states() {
    assert_eq!(fal::parse_queue_state("COMPLETED"), fal::QueueState::Completed);
    assert_eq!(fal::parse_queue_state("FAILED"), fal::QueueState::Failed);
    assert_eq!(fal::parse_queue_state("IN_QUEUE"), fal::QueueState::Pending);
    assert_eq!(fal::parse_queue_state("completed"), fal::QueueState::Pending);
    let s = fal::poll_step("r", fal::FalQueueStatus { status: "FAILED".to_string(), error: Some("boom".to_string()) });
    match s {
        fal::PollStep::Finished(r) => {
            assert_eq!(r.status, PredictionStatus::Failed);
            assert_eq!(r.error.as_deref(), Some("boom"));
            assert_eq!(r.id, "r");
        }
        _ => panic!("expected a failed result"),
    }
    assert!(matches!(fal::poll_step("r", fal::FalQueueStatus { status: "IN_PROGRESS".to_string(), error: None }), fal::PollStep::Wait));
    assert!(matches!(fal::poll_step("r", fal::FalQueueStatus { status: "COMPLETED".to_string(), error: None }), fal::PollStep::FetchResult));
}

#[test]
fn fal_upload_request_body() {
    let b = fal::upload_request("dir/speech.mp3");
    assert_eq!(b.get("file_name").and_then(text), Some("speech.mp3"));
    assert_eq!(b.get("content_type").and_then(text), Some("audio/mpeg"));
    let b = fal::upload_request("/");
    assert_eq!(b.get("file_name").and_then(text), Some("file"));
    assert_eq!(b.get("content_type").and_then(text), Some("application/octet-stream"));
    let b = fal::upload_request("clips/v.webm/");
    assert_eq!(b.get("file_name").and_then(text), Some("v.webm"));
    assert_eq!(b.get("content_type").and_then(text), Some("video/webm"));
    let b = fal::upload_request("clips/..");
    assert_eq!(b.get("file_name").and_then(text), Some("file"));
}

#[test]
fn fal_schema_and_catalog() {
    let s = fal::fal_schema("fal-ai/whisper");
    assert_eq!(s.name, "fal-ai/whisper");
    assert_eq!(
        s.description.as_deref(),
        Some("Fal model: fal-ai/whisper. See https://fal.ai/models/fal-ai/whisper for documentation.")
    );
    assert_eq!(s.input_schema.get("type").and_then(text), Some("object"));
    let models = fal::fal_models(20);
    assert_eq!(models.len(), 5);
    assert_eq!(models[0].id, "fal-ai/flux/dev");
    assert_eq!(models[4].name, "SadTalker");
    let two = fal::fal_models(2);
    assert_eq!(two.len(), 2);
    assert_eq!(two[1].id, "fal-ai/flux/schnell");
    assert_eq!(two[1].owner.as_deref(), Some("fal-ai"));
    assert!(fal::fal_models(0).is_empty());
}

#[test]
fn wavespeed_status_words_ignore_case() {
    assert_eq!(wavespeed::parse_status("PENDING"), PredictionStatus::Starting);
    assert_eq!(wavespeed::parse_status("Running"), PredictionStatus::Processing);
    assert_eq!(wavespeed::parse_status("completed"), PredictionStatus::Succeeded);
    assert_eq!(wavespeed::parse_status("Success"), PredictionStatus::Succeeded);
    assert_eq!(wavespeed::parse_status("ERROR"), PredictionStatus::Failed);
    assert_eq!(wavespeed::parse_status("cancelled"), PredictionStatus::Canceled);
    assert_eq!(wavespeed::parse_status("weird"), PredictionStatus::Processing);
}

#[test]
fn wavespeed_result_and_urls() {
    let p = wavespeed::WaveSpeedPrediction {
        id: "w1".to_string(),
        status: "failed".to_string(),
        output: None,
        error: Some("bad".to_string()),
        metrics: None,
    };
    let r = p.into_prediction_result();
    assert_eq!(r.status, PredictionStatus::Failed);
    let urls = r.urls.unwrap();
    assert_eq!(urls.get.as_deref(), Some("https://api.wavespeed.ai/v1/predictions/w1"));
    assert!(urls.cancel.is_none());
    assert_eq!(wavespeed::models_url(Some("flux dev")), "https://api.wavespeed.ai/v1/models?search=flux%20dev");
    assert_eq!(wavespeed::model_url("wavespeed/flux-dev"), "https://api.wavespeed.ai/v1/models/wavespeed/flux-dev");
    assert_eq!(wavespeed::auth_header_value("k"), "Bearer k");
    let b = wavespeed::prediction_body("m", Json::Null);
    assert_eq!(b.get("model").and_then(text), Some("m"));
}

#[test]
fn wavespeed_schemas_and_listing() {
    let s = wavespeed::schema_from_model("w/m", wavespeed::WaveSpeedModel { name: None, description: None, input_schema: None, output_schema: None });
    assert_eq!(s.name, "w/m");
    assert_eq!(s.input_schema.get("description").and_then(text), Some("See WaveSpeed documentation for input schema"));
    let f = wavespeed::fallback_schema("w/m");
    assert_eq!(f.description.as_deref(), Some("WaveSpeed model: w/m. See https://wavespeed.ai for documentation."));
    let item = wavespeed::WaveSpeedModelListItem { id: "i".to_string(), name: None, description: None, owner: None, url: None };
    let infos = wavespeed::infos_from_listing(vec![item], 5);
    assert_eq!(infos[0].name, "");
    assert_eq!(wavespeed::fallback_models(20).len(), 2);
    assert_eq!(wavespeed::fallback_models(20)[1].id, "wavespeed/sd-xl");
    let one = wavespeed::fallback_models(1);
    assert_eq!(one.len(), 1);
    assert_eq!(one[0].id, "wavespeed/flux-dev");
}
