use engineqa_backend::error_code::ErrorCode;
use engineqa_backend::provider::ProviderError;
use engineqa_backend::query::{
    build_context, build_messages, default_top_k, respond_to_embed_failure, respond_to_generation,
    respond_to_retrieval, NO_MATCH_ANSWER, SYSTEM_PROMPT,
};
use engineqa_backend::rag::{ChunkMetadata, RetrievedChunk, RetrieverError, VectorRetriever, SCORE_THRESHOLD};
use engineqa_backend::vector_store::SearchHit;

fn chunk(doc: &str, score: u32) -> RetrievedChunk {
    RetrievedChunk {
        metadata: ChunkMetadata {
            doc_id: doc.to_string(),
            path: format!("{}.md", doc),
            title_path: format!("Title {}", doc),
            section: "S".to_string(),
        },
        snippet: format!("text of {}", doc),
        score,
    }
}

#[test]
fn no_passage_above_threshold_is_no_match() {
    let retriever = VectorRetriever::new(SCORE_THRESHOLD);
    let retrieved = retriever.retrieve(Ok(Vec::<SearchHit>::new()));
    let response = respond_to_retrieval("t1", retrieved).err().unwrap();
    assert!(response.degraded);
    assert_eq!(response.error_code.as_deref(), Some("NO_MATCH"));
    assert!(response.sources.is_empty());
    assert_eq!(response.answer, NO_MATCH_ANSWER);
    assert_eq!(response.trace_id, "t1");
}

#[test]
fn below_threshold_is_retrieval_failure() {
    let response = respond_to_retrieval("t2", Err(RetrieverError::NoResultsAboveThreshold)).err().unwrap();
    assert!(response.degraded);
    assert_eq!(response.error_code.as_deref(), Some("RETRIEVAL_FAILED"));
    assert!(response.sources.is_empty());
    assert_eq!(response.answer, "服务暂时不可用：检索服务失败，请检查向量存储连接。");
}

#[test]
fn passages_continue_to_generation() {
    let chunks = respond_to_retrieval("t", Ok(vec![chunk("a", 500_000)])).ok().unwrap();
    assert_eq!(chunks.len(), 1);
}

#[test]
fn generation_503_degrades_with_sources() {
    let chunks = vec![chunk("a", 900_000), chunk("b", 800_000)];
    let err = ProviderError::ApiError { status: 503, message: "busy".to_string() };
    let response = respond_to_generation("t3", &chunks, Err(err));
    assert!(response.degraded);
    assert_eq!(response.error_code.as_deref(), Some("UPSTREAM_UNAVAILABLE"));
    let sources: Vec<(&str, &str)> = response.sources.iter().map(|s| (s.title.as_str(), s.path.as_str())).collect();
    assert_eq!(sources, vec![("Title a", "a.md"), ("Title b", "b.md")]);
    assert_eq!(
        response.answer,
        "AI 生成服务暂时不可用：上游服务不可用，请稍后重试。\n\n以下是一些相关的参考文档，您可以自行查阅：\n- [Title a] a.md\n- [Title b] b.md"
    );
}

#[test]
fn generation_decode_failure_degrades_without_sources() {
    let chunks = vec![chunk("a", 900_000)];
    let response = respond_to_generation("t4", &chunks, Err(ProviderError::SerializationError("bad".to_string())));
    assert!(response.degraded);
    assert_eq!(response.error_code.as_deref(), Some("INTERNAL_ERROR"));
    assert!(response.sources.is_empty());
}

#[test]
fn generation_success_returns_answer_and_sources() {
    let chunks = vec![chunk("a", 900_000)];
    let response = respond_to_generation("t5", &chunks, Ok("the answer".to_string()));
    assert!(!response.degraded);
    assert_eq!(response.error_code, None);
    assert_eq!(response.answer, "the answer");
    assert_eq!(response.sources.len(), 1);
    assert_eq!(response.sources[0].snippet, "text of a");
    assert_eq!(response.sources[0].score, 900_000);
}

#[test]
fn embed_failure_degrades_without_sources() {
    let err = ProviderError::RequestError { is_timeout: true, is_connect: false, message: String::new() };
    let response = respond_to_embed_failure("t6", &err);
    assert!(response.degraded);
    assert_eq!(response.error_code.as_deref(), Some("UPSTREAM_TIMEOUT"));
    assert!(response.sources.is_empty());
    assert_eq!(response.answer, "服务暂时不可用：上游服务响应超时，请稍后重试。");
}

#[test]
fn context_numbers_passages() {
    let ctx = build_context(&vec![chunk("a", 1), chunk("b", 2)]);
    assert_eq!(
        ctx,
        "[来源1] Title a\n路径: a.md\n内容: text of a\n\n\n[来源2] Title b\n路径: b.md\n内容: text of b\n"
    );
    assert_eq!(build_context(&Vec::new()), "");
}

#[test]
fn messages_hold_instruction_and_question() {
    let m = build_messages("why?", "ctx");
    assert_eq!(m.len(), 2);
    assert_eq!(m[0].role, "system");
    assert_eq!(m[0].content, SYSTEM_PROMPT);
    assert_eq!(m[1].role, "user");
    assert_eq!(m[1].content, "问题: why?\n\n参考资料:\nctx");
    assert_eq!(default_top_k(), 6);
    assert_eq!(ErrorCode::UpstreamError.as_str(), "UPSTREAM_ERROR");
}
