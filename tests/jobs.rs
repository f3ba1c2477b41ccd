use engineqa_backend::feedback::{validate_feedback, FeedbackError, FeedbackRating, FeedbackRequest, FeedbackStore};
use engineqa_backend::provider::{endpoint_url, first_choice_content, retry_step, ChatChoice, ChatMessage, ChatResponse, ProviderError, RetryStep, RETRY_BASE_DELAY_MS};
use engineqa_backend::reindex::{IndexResult, JobManager, JobStatus, ReindexError};
use engineqa_backend::status::UpstreamHealth;

fn result() -> IndexResult {
    IndexResult {
        total_files: 1,
        indexed_files: 1,
        skipped_files: 0,
        failed_files: 0,
        total_chunks: 1,
        successful_chunks: 1,
        failed_chunks: 0,
        deleted_chunks: 0,
        duration_ms: 10,
    }
}

#[test]
fn job_status_serializes_as_lowercase() {
    assert_eq!(serde_json::to_string(JobStatus::Running.as_str()).unwrap(), "\"running\"");
    assert_eq!(serde_json::to_string(JobStatus::Completed.as_str()).unwrap(), "\"completed\"");
    assert_eq!(serde_json::to_string(JobStatus::Failed.as_str()).unwrap(), "\"failed\"");
}

#[test]
fn test_upstream_health_serialization() {
    let health = UpstreamHealth::Healthy;
    assert_eq!(serde_json::to_string(health.as_str()).unwrap(), "\"ok\"");
}

#[test]
fn start_job_allows_new_job_after_completion() {
    let mut manager = JobManager::new();
    let first_job_id = manager.start_job().ok().expect("first job should start");
    assert!(!first_job_id.is_empty());

    manager.complete_job(&first_job_id, result());

    let second_job_id = manager.start_job().ok().expect("completed job should not block new job");
    assert_ne!(first_job_id, second_job_id);
    assert!(manager.get_last_index_time().is_some());
}

#[test]
fn running_job_blocks_a_second_start() {
    let mut manager = JobManager::new();
    let id = manager.start_job().ok().unwrap();
    assert!(matches!(manager.start_job(), Err(ReindexError::JobInProgress)));
    let job = manager.get_current_job().as_ref().unwrap();
    assert_eq!(job.job_id, id);
    assert_eq!(job.status, JobStatus::Running);
    assert_eq!(ReindexError::JobInProgress.status_code(), 409);
}

#[test]
fn failed_job_allows_new_job() {
    let mut manager = JobManager::new();
    let id = manager.start_job().ok().unwrap();
    manager.fail_job(&id, "disk gone".to_string());
    let job = manager.get_current_job().as_ref().unwrap();
    assert_eq!(job.status, JobStatus::Failed);
    assert_eq!(job.error.as_deref(), Some("disk gone"));
    assert!(job.ended_at.is_some());
    assert!(manager.get_last_index_time().is_none());
    let next = manager.start_job().ok().unwrap();
    assert_ne!(next, id);
}

#[test]
fn stale_completion_is_ignored() {
    let mut manager = JobManager::new();
    let id = manager.start_job().ok().unwrap();
    manager.complete_job("another-job", result());
    assert_eq!(manager.get_current_job().as_ref().unwrap().status, JobStatus::Running);
    manager.clear_job();
    assert!(manager.get_current_job().is_none());
    manager.complete_job(&id, result());
    assert!(manager.get_current_job().is_none());
    assert!(manager.start_job_with("x".to_string(), "t".to_string()).is_ok());
}

#[test]
fn retries_back_off_linearly_then_give_up() {
    assert!(matches!(retry_step(0, 3, false, RETRY_BASE_DELAY_MS), RetryStep::RetryAfter(500)));
    assert!(matches!(retry_step(1, 3, false, RETRY_BASE_DELAY_MS), RetryStep::RetryAfter(1000)));
    assert!(matches!(retry_step(2, 3, false, RETRY_BASE_DELAY_MS), RetryStep::RetryAfter(1500)));
    assert!(matches!(retry_step(3, 3, false, RETRY_BASE_DELAY_MS), RetryStep::Finish));
    assert!(matches!(retry_step(0, 3, true, RETRY_BASE_DELAY_MS), RetryStep::Finish));
    assert!(matches!(retry_step(0, 0, false, RETRY_BASE_DELAY_MS), RetryStep::Finish));
}

#[test]
fn endpoint_url_strips_trailing_slashes() {
    assert_eq!(endpoint_url("https://h.example.com//", "/v1/embeddings"), "https://h.example.com/v1/embeddings");
    assert_eq!(endpoint_url("https://h.example.com", "/v1/x"), "https://h.example.com/v1/x");
}

#[test]
fn first_choice_or_unprocessable() {
    let empty = ChatResponse { choices: Vec::new() };
    assert!(matches!(first_choice_content(&empty), Err(ProviderError::ApiError { status: 422, .. })));
    let one = ChatResponse {
        choices: vec![ChatChoice { message: ChatMessage { role: "assistant".to_string(), content: "hi".to_string() } }],
    };
    assert_eq!(first_choice_content(&one).ok().unwrap(), "hi");
}

fn feedback(question: &str, trace: &str) -> FeedbackRequest {
    FeedbackRequest {
        question: question.to_string(),
        answer: "a".to_string(),
        rating: FeedbackRating::Useful,
        comment: None,
        error_code: None,
        trace_id: trace.to_string(),
    }
}

#[test]
fn feedback_is_validated_and_logged() {
    match validate_feedback(&feedback("  ", "t")) {
        Err(FeedbackError::InvalidInput(m)) => assert_eq!(m, "Question cannot be empty"),
        _ => panic!("expected invalid input"),
    }
    match validate_feedback(&feedback("q", " ")) {
        Err(FeedbackError::InvalidInput(m)) => assert_eq!(m, "Trace ID cannot be empty"),
        _ => panic!("expected invalid input"),
    }
    assert!(validate_feedback(&feedback("q", "t")).is_ok());
    let mut store = FeedbackStore::new();
    let id = store.save(feedback("q1", "t1")).id.clone();
    store.save(feedback("q2", "t2"));
    assert_eq!(store.get_all().len(), 2);
    assert_eq!(store.get_by_trace_id("t2").unwrap().question, "q2");
    assert_eq!(store.get_by_trace_id("t1").unwrap().id, id);
    assert!(store.get_by_trace_id("t3").is_none());
}

#[test]
fn defaults_start_empty() {
    assert!(JobManager::default().get_current_job().is_none());
    assert!(JobManager::default().get_last_index_time().is_none());
    assert!(FeedbackStore::default().get_all().is_empty());
}

#[test]
fn repeated_id_is_refused_after_a_finished_job() {
    let mut manager = JobManager::new();
    assert_eq!(manager.start_job_with("a".to_string(), "t0".to_string()).ok().unwrap(), "a");
    manager.complete_job("a", result());
    assert!(matches!(
        manager.start_job_with("a".to_string(), "t1".to_string()),
        Err(ReindexError::InternalError(_))
    ));
    assert_eq!(manager.get_current_job().as_ref().unwrap().status, JobStatus::Completed);
    assert_eq!(manager.start_job_with("b".to_string(), "t2".to_string()).ok().unwrap(), "b");
    let id = JobManager::new().start_job().ok().unwrap();
    assert_eq!(id.len(), 36);
}
