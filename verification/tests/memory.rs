use pointer_core::memory::effective_top_k;
use pointer_core::memory::ingest_outcome;
use pointer_core::memory::search_outcome;

#[test]
fn candidate_without_id_is_dropped_order_kept() {
    let body = "{\"matches\":[\
        {\"id\":\"a\",\"score\":0.9,\"text\":\"first\"},\
        {\"score\":0.8,\"text\":\"second\"},\
        {\"id\":\"c\",\"score\":0.7,\"text\":\"third\"}\
    ]}";
    let matches = search_outcome(200, body).expect("success status and valid body");
    assert_eq!(matches.len(), 2);
    assert_eq!(matches[0].id, "a");
    assert_eq!(matches[0].text, "first");
    assert_eq!(matches[1].id, "c");
    assert_eq!(matches[1].text, "third");
}

#[test]
fn absent_score_and_text_get_defaults() {
    let body = "{\"matches\":[{\"id\":\"a\"}]}";
    let matches = search_outcome(200, body).expect("success status and valid body");
    assert_eq!(matches.len(), 1);
    assert_eq!(matches[0].score_text, "0");
    assert_eq!(matches[0].text, "");
}

#[test]
fn score_is_passed_through() {
    let body = "{\"matches\":[{\"id\":\"a\",\"score\":0.875,\"text\":\"t\"}]}";
    let matches = search_outcome(200, body).expect("success status and valid body");
    assert_eq!(matches[0].score_text, "0.875");
    let score: f64 = matches[0].score_text.parse().unwrap();
    assert_eq!(score, 0.875);
}

#[test]
fn missing_matches_array_is_empty_result() {
    let matches = search_outcome(200, "{\"something\":\"else\"}").expect("valid body");
    assert!(matches.is_empty());
}

#[test]
fn search_failure_statuses() {
    assert_eq!(search_outcome(500, "ignored"), Err("HTTP 500".to_string()));
    assert_eq!(search_outcome(404, "ignored"), Err("HTTP 404".to_string()));
    let err = search_outcome(200, "not json").unwrap_err();
    assert!(err.starts_with("JSON parse error: "), "got: {}", err);
}

#[test]
fn effective_top_k_precedence() {
    assert_eq!(effective_top_k(Some(3), Some(7)), 3);
    assert_eq!(effective_top_k(None, Some(7)), 7);
    assert_eq!(effective_top_k(None, None), 5);
    assert_eq!(effective_top_k(Some(0), None), 0);
}

#[test]
fn ingest_passes_the_response_through() {
    let value = ingest_outcome(200, "{\"ingested\":3}").expect("valid body");
    assert_eq!(value.get("ingested").and_then(|v| v.as_i64()), Some(3));
}

#[test]
fn ingest_failure_statuses() {
    assert_eq!(
        ingest_outcome(503, "ignored").unwrap_err(),
        "HTTP 503".to_string()
    );
    let err = ingest_outcome(201, "{broken").unwrap_err();
    assert!(err.starts_with("JSON parse error: "), "got: {}", err);
}
