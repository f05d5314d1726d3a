use codex_rs::json::Json;
use codex_rs::output::{render_models_text, render_result_text, render_schema_text, render_value, shorten, Piece, Style};
use codex_rs::providers::{ModelInfo, ModelSchema, PredictionMetrics, PredictionResult, PredictionStatus, PredictionUrls};

fn flat(lines: &[Vec<Piece>]) -> Vec<String> {
    lines
        .iter()
        .map(|l| {
            l.iter()
                .map(|p| match p {
                    Piece::Text(s, _) => s.clone(),
                    Piece::Seconds(b) => format!("{:.2}", f64::from_bits(*b)),
                    Piece::PrettyJson(_) => "<json>".to_string(),
                })
                .collect()
        })
        .collect()
}

#[test]
fn scalar_values() {
    assert_eq!(flat(&render_value(&Json::Null, 2)), vec!["  null"]);
    assert_eq!(flat(&render_value(&Json::Bool(false), 0)), vec!["false"]);
    assert_eq!(flat(&render_value(&Json::Number("1.5".to_string()), 4)), vec!["    1.5"]);
    assert_eq!(flat(&render_value(&Json::Str("hi".to_string()), 1)), vec![" hi"]);
}

#[test]
fn urls_are_underlined() {
    let lines = render_value(&Json::Str("https://x.io/a.png".to_string()), 2);
    assert_eq!(lines.len(), 1);
    assert!(matches!(&lines[0][1], Piece::Text(s, Style::BlueUnderlined) if s == "https://x.io/a.png"));
    assert_eq!(flat(&lines), vec!["  https://x.io/a.png"]);
}

#[test]
fn long_strings_are_cut() {
    let long = "a".repeat(101);
    assert_eq!(flat(&render_value(&Json::Str(long), 0)), vec![format!("{}...", "a".repeat(97))]);
    let exact = "b".repeat(100);
    assert_eq!(flat(&render_value(&Json::Str(exact.clone()), 0)), vec![exact]);
}

#[test]
fn arrays_and_objects() {
    let v = Json::Array(vec![Json::Str("x".to_string()), Json::Number("2".to_string())]);
    assert_eq!(flat(&render_value(&v, 2)), vec!["  [0]:", "    x", "  [1]:", "    2"]);
    let single = Json::Array(vec![Json::Str("only".to_string())]);
    assert_eq!(flat(&render_value(&single, 2)), vec!["    only"]);
    let obj = Json::Object(vec![
        ("a".to_string(), Json::Number("1".to_string())),
        ("b".to_string(), Json::Object(vec![("c".to_string(), Json::Bool(true))])),
        ("d".to_string(), Json::Array(vec![])),
    ]);
    assert_eq!(flat(&render_value(&obj, 2)), vec!["  a: 1", "  b: ", "    c: true", "  d: "]);
}

fn sample_result() -> PredictionResult {
    PredictionResult {
        id: "abc".to_string(),
        status: PredictionStatus::Succeeded,
        output: Some(Json::Str("done".to_string())),
        error: Some("oops".to_string()),
        metrics: Some(PredictionMetrics { predict_time: Some(1.234f64.to_bits()), total_time: None }),
        urls: Some(PredictionUrls { get: Some("g".to_string()), cancel: None }),
    }
}

#[test]
fn result_text() {
    let r = sample_result();
    assert_eq!(flat(&render_result_text(&r, false)), vec!["Status: succeeded", "ID: abc", "Error: oops", "Output:", "  done"]);
    assert_eq!(
        flat(&render_result_text(&r, true)),
        vec![
            "Status: succeeded", "ID: abc", "Error: oops", "Output:", "  done", "", "Metrics:",
            "  Predict time: 1.23s", "", "URLs:", "  Get: g",
        ]
    );
    let lines = render_result_text(&r, false);
    assert!(matches!(&lines[0][2], Piece::Text(_, Style::Green)));
}

#[test]
fn status_colours() {
    let mut r = sample_result();
    r.status = PredictionStatus::Starting;
    assert!(matches!(&render_result_text(&r, false)[0][2], Piece::Text(s, Style::Yellow) if s == "starting"));
    r.status = PredictionStatus::Canceled;
    assert!(matches!(&render_result_text(&r, false)[0][2], Piece::Text(s, Style::Dim) if s == "canceled"));
    r.status = PredictionStatus::Failed;
    assert!(matches!(&render_result_text(&r, false)[0][2], Piece::Text(s, Style::Red) if s == "failed"));
}

#[test]
fn schema_text() {
    let s = ModelSchema {
        name: "m".to_string(),
        description: None,
        input_schema: Json::Null,
        output_schema: Some(Json::Null),
    };
    assert_eq!(flat(&render_schema_text(&s)), vec!["Model: m", "", "Input Schema:", "<json>", "", "Output Schema:", "<json>"]);
}

#[test]
fn models_text() {
    assert_eq!(flat(&render_models_text(&vec![])), vec!["No models found."]);
    let m = ModelInfo {
        id: "o/n".to_string(),
        name: "Nice".to_string(),
        description: Some("x".repeat(81)),
        owner: Some("o".to_string()),
        url: Some("https://u".to_string()),
    };
    let same = ModelInfo { id: "n".to_string(), name: "n".to_string(), description: None, owner: None, url: None };
    assert_eq!(
        flat(&render_models_text(&vec![m, same])),
        vec![
            "o/n".to_string(),
            "  Name: Nice".to_string(),
            format!("  {}...", "x".repeat(77)),
            "  Owner: o".to_string(),
            "  URL: https://u".to_string(),
            "".to_string(),
            "n".to_string(),
            "".to_string(),
        ]
    );
}

#[test]
fn shortening() {
    assert_eq!(shorten(&"y".repeat(51), 50, 47), format!("{}...", "y".repeat(47)));
    assert_eq!(shorten(&"y".repeat(50), 50, 47), "y".repeat(50));
}
