use engineqa_backend::rag::{RetrieverError, VectorRetriever, COLLECTION_NAME, DEFAULT_TOP_K, SCORE_THRESHOLD};
use engineqa_backend::vector_store::{
    check_vector_sizes, delete_predicate, points_predicate, distance_to_score, escape_sql_literal, needs_vector_index,
    point_id, SearchHit, VectorStoreError, SCORE_SCALE,
};

fn hit(doc: &str, score: u32) -> SearchHit {
    SearchHit {
        doc_id: doc.to_string(),
        path: format!("{}.md", doc),
        title_path: format!("Title {}", doc),
        section: "S".to_string(),
        snippet: format!("text of {}", doc),
        score,
    }
}

fn scaled(x: f64) -> i64 {
    (x * SCORE_SCALE as f64).round() as i64
}

fn unscaled(s: u32) -> f64 {
    s as f64 / SCORE_SCALE as f64
}

#[test]
fn test_score_threshold_constant() {
    assert_eq!(unscaled(SCORE_THRESHOLD), 0.3);
}

#[test]
fn test_default_top_k_constant() {
    assert_eq!(DEFAULT_TOP_K, 6);
}

#[test]
fn test_collection_name_constant() {
    assert_eq!(COLLECTION_NAME, "knowledge_chunks");
}

#[test]
fn distance_to_score_converts_and_clamps() {
    assert_eq!(unscaled(distance_to_score(scaled(0.0))), 1.0);
    assert_eq!(unscaled(distance_to_score(scaled(2.0))), 0.0);
    assert_eq!(unscaled(distance_to_score(scaled(1.0))), 0.5);
    assert_eq!(unscaled(distance_to_score(scaled(-1.0))), 1.0);
    assert_eq!(unscaled(distance_to_score(scaled(3.0))), 0.0);
}

#[test]
fn score_falls_as_distance_grows() {
    let mut last = distance_to_score(-5);
    for d in (0..2_100_000).step_by(50_000) {
        let s = distance_to_score(d);
        assert!(s <= last);
        assert!(s <= SCORE_SCALE);
        last = s;
    }
    assert_eq!(distance_to_score(500_000), 750_000);
}

#[test]
fn retriever_keeps_hits_above_threshold_in_order() {
    let r = VectorRetriever::new(SCORE_THRESHOLD);
    let hits = vec![hit("a", 900_000), hit("b", 100_000), hit("c", 300_000)];
    let got = r.retrieve(Ok(hits)).ok().unwrap();
    let ids: Vec<&str> = got.iter().map(|c| c.metadata.doc_id.as_str()).collect();
    assert_eq!(ids, vec!["a", "c"]);
    assert_eq!(got[0].metadata.title_path, "Title a");
    assert_eq!(got[0].snippet, "text of a");
    assert_eq!(got[1].score, 300_000);
}

#[test]
fn retriever_distinguishes_empty_from_below_threshold() {
    let r = VectorRetriever::new(SCORE_THRESHOLD);
    assert!(r.retrieve(Ok(Vec::new())).ok().unwrap().is_empty());
    assert!(matches!(
        r.retrieve(Ok(vec![hit("a", 10)])),
        Err(RetrieverError::NoResultsAboveThreshold)
    ));
    assert!(matches!(
        r.retrieve(Err(VectorStoreError::Unavailable("down".to_string()))),
        Err(RetrieverError::Store(VectorStoreError::Unavailable(_)))
    ));
}

#[test]
fn retriever_top_k_defaults() {
    let r = VectorRetriever::new(SCORE_THRESHOLD);
    assert_eq!(r.top_k(None), 6);
    assert_eq!(r.top_k(Some(3)), 3);
}

#[test]
fn store_keys_and_predicates() {
    assert_eq!(point_id("d", "d_chunk_0", "abc"), "d|d_chunk_0|abc");
    assert_eq!(escape_sql_literal("it's"), "it''s");
    assert_eq!(delete_predicate("o'k.md"), "doc_id = 'o''k.md'");
    assert!(needs_vector_index(1, false));
    assert!(!needs_vector_index(0, false));
    assert!(!needs_vector_index(5, true));
}

#[test]
fn vector_sizes_are_checked() {
    assert!(check_vector_sizes(&vec![3, 3], 3).is_ok());
    match check_vector_sizes(&vec![3, 2], 3) {
        Err(VectorStoreError::InvalidPayload(m)) => assert_eq!(m, "vector size mismatch: got 2, expected 3"),
        _ => panic!("expected a mismatch"),
    }
}

#[test]
fn descending_hits_give_descending_passages() {
    let r = VectorRetriever::new(SCORE_THRESHOLD);
    let hits = vec![hit("a", 1_000_000), hit("b", 800_000), hit("c", 200_000), hit("d", 100_000)];
    let got = r.retrieve(Ok(hits)).ok().unwrap();
    let scores: Vec<u32> = got.iter().map(|c| c.score).collect();
    assert_eq!(scores, vec![1_000_000, 800_000]);
}

#[test]
fn points_filter_quotes_each_key() {
    let ids = vec!["a|c|h".to_string(), "o'k|c|h".to_string()];
    assert_eq!(points_predicate(&ids), "point_id IN ('a|c|h', 'o''k|c|h')");
}
