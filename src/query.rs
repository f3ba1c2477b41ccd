//! The query pipeline's decisions: grounding context, prompt, and the
//! responses of each stage, degraded or not.

use vstd::prelude::*;
use crate::error_code::{description_of, get_error_description, should_degrade, degrades, ErrorCode};
use crate::provider::{map_provider_error, provider_error_class, ChatMessage, ProviderError};
use crate::rag::{passages_view, PassageView, RetrievedChunk, RetrieverError};
use crate::text::{decimal, decimal_of};

verus! {

/// Upper bound on the length of a generated answer, in tokens.
pub const MAX_TOKENS: u32 = 512;

/// The instruction that confines the model to the supplied material.
pub const SYSTEM_PROMPT: &'static str = "
你是一个广告引擎维优专家的智能助手。

## 重要规则

1. **仅基于提供的参考资料回答问题**
   - 如果参考资料中没有足够的信息，请明确说明\"根据现有资料，我不确定\"
   - **绝对不要编造或推测答案**

2. **提供可操作的排查建议**
   - 针对故障问题，给出步骤化的排查建议
   - 每个建议应基于参考资料中的实际内容

3. **答案结构清晰**
   - 直接回答问题
   - 如有多个解决方案，分别说明
   - 引用来源时要准确

4. **语言风格**
   - 使用专业但易懂的中文
   - 避免冗长，保持简洁
   - 技术术语保持一致

## 回答格式

根据参考资料，问题的答案是：
[答案内容]

相关参考：
- [来源1的标题]
- [来源2的标题]
";

/// The answer given when nothing relevant was found.
pub const NO_MATCH_ANSWER: &'static str = "根据现有知识库，我没有找到相关的参考资料来回答这个问题。请尝试更具体的问题描述，或者联系技术团队获取更多帮助。";

pub struct QueryRequest {
    pub question: String,
    pub top_k: u64,
}

pub fn default_top_k() -> (r: u64)
    ensures
        r == 6,
{
    6
}

pub enum QueryError {
    ProviderError(ProviderError),
    RetrievalError(RetrieverError),
    InternalError(String),
}

/// A passage as shown to the user.
pub struct QuerySource {
    pub title: String,
    pub path: String,
    pub snippet: String,
    /// Similarity in units of `1 / SCORE_SCALE`.
    pub score: u32,
}

pub struct QuerySourceView {
    pub title: Seq<char>,
    pub path: Seq<char>,
    pub snippet: Seq<char>,
    pub score: nat,
}

impl View for QuerySource {
    type V = QuerySourceView;

    open spec fn view(&self) -> QuerySourceView {
        QuerySourceView {
            title: self.title@,
            path: self.path@,
            snippet: self.snippet@,
            score: self.score as nat,
        }
    }
}

pub open spec fn source_of(p: PassageView) -> QuerySourceView {
    QuerySourceView { title: p.title_path, path: p.path, snippet: p.snippet, score: p.score }
}

pub open spec fn sources_view(v: Seq<QuerySource>) -> Seq<QuerySourceView> {
    v.map_values(|s: QuerySource| s@)
}

impl QuerySource {
    pub fn from_chunk(chunk: &RetrievedChunk) -> (r: Self)
        ensures
            r@ == source_of(chunk@),
    {
        QuerySource {
            title: chunk.metadata.title_path.clone(),
            path: chunk.metadata.path.clone(),
            snippet: chunk.snippet.clone(),
            score: chunk.score,
        }
    }
}

pub open spec fn sources_of(passages: Seq<PassageView>) -> Seq<QuerySourceView> {
    passages.map_values(|p: PassageView| source_of(p))
}

pub fn sources_from_chunks(chunks: &Vec<RetrievedChunk>) -> (r: Vec<QuerySource>)
    ensures
        sources_view(r@) == sources_of(passages_view(chunks@)),
{
    let mut r: Vec<QuerySource> = Vec::new();
    let mut i: usize = 0;
    while i < chunks.len()
        invariant
            i <= chunks.len(),
            sources_view(r@) == sources_of(passages_view(chunks@).take(i as int)),
        decreases chunks.len() - i,
    {
        let ghost before = r@;
        r.push(QuerySource::from_chunk(&chunks[i]));
        proof {
            let pv = passages_view(chunks@);
            assert(pv[i as int] == chunks@[i as int]@);
            assert(pv.take(i + 1) =~= pv.take(i as int).push(pv[i as int]));
            assert(sources_view(r@) =~= sources_view(before).push(source_of(pv[i as int])));
            assert(sources_view(r@) =~= sources_of(pv.take(i + 1)));
        }
        i = i + 1;
    }
    proof {
        assert(passages_view(chunks@).take(chunks.len() as int) =~= passages_view(chunks@));
    }
    r
}

/// One passage of the grounding context, numbered from 1.
pub open spec fn context_entry(n: nat, p: PassageView) -> Seq<char> {
    "[来源"@ + decimal_of(n) + "] "@ + p.title_path + "\n路径: "@ + p.path + "\n内容: "@ + p.snippet
        + "\n"@
}

/// The grounding context: the numbered passages separated by blank lines.
pub open spec fn context_of(passages: Seq<PassageView>) -> Seq<char>
    decreases passages.len(),
{
    if passages.len() == 0 {
        Seq::empty()
    } else if passages.len() == 1 {
        context_entry(1, passages[0])
    } else {
        context_of(passages.drop_last()) + "\n\n"@ + context_entry(passages.len(), passages.last())
    }
}

pub fn build_context(chunks: &Vec<RetrievedChunk>) -> (r: String)
    ensures
        r@ == context_of(passages_view(chunks@)),
{
    let ghost pv = passages_view(chunks@);
    let mut r = String::new();
    let mut i: usize = 0;
    while i < chunks.len()
        invariant
            i <= chunks.len(),
            pv == passages_view(chunks@),
            r@ == context_of(pv.take(i as int)),
        decreases chunks.len() - i,
    {
        let c = &chunks[i];
        proof {
            assert(pv.take(i + 1).drop_last() =~= pv.take(i as int));
            assert(pv.take(i + 1).last() == c@);
        }
        if i > 0 {
            r.append("\n\n");
        }
        r.append("[来源");
        let n = decimal(i + 1);
        r.append(n.as_str());
        r.append("] ");
        r.append(c.metadata.title_path.as_str());
        r.append("\n路径: ");
        r.append(c.metadata.path.as_str());
        r.append("\n内容: ");
        r.append(c.snippet.as_str());
        r.append("\n");
        proof {
            if i == 0 {
                assert(pv.take(1)[0] == c@);
            }
            assert(r@ =~= context_of(pv.take(i + 1)));
        }
        i = i + 1;
    }
    proof {
        assert(pv.take(chunks.len() as int) =~= pv);
    }
    r
}

pub struct ChatMessageView {
    pub role: Seq<char>,
    pub content: Seq<char>,
}

impl View for ChatMessage {
    type V = ChatMessageView;

    open spec fn view(&self) -> ChatMessageView {
        ChatMessageView { role: self.role@, content: self.content@ }
    }
}

pub open spec fn user_message(question: Seq<char>, context: Seq<char>) -> Seq<char> {
    "问题: "@ + question + "\n\n参考资料:\n"@ + context
}

/// The two-message prompt: the fixed system instruction, then the question
/// with its context.
pub fn build_messages(question: &str, context: &str) -> (r: Vec<ChatMessage>)
    ensures
        r@.len() == 2,
        r@[0]@ == (ChatMessageView { role: "system"@, content: SYSTEM_PROMPT@ }),
        r@[1]@ == (ChatMessageView { role: "user"@, content: user_message(question@, context@) }),
{
    let mut content = String::from_str("问题: ");
    content.append(question);
    content.append("\n\n参考资料:\n");
    content.append(context);
    let mut r: Vec<ChatMessage> = Vec::new();
    r.push(ChatMessage { role: String::from_str("system"), content: String::from_str(SYSTEM_PROMPT) });
    r.push(ChatMessage { role: String::from_str("user"), content });
    r
}

/// The answer to a query, possibly degraded.
pub struct QueryResponse {
    pub answer: String,
    pub sources: Vec<QuerySource>,
    pub degraded: bool,
    pub error_code: Option<String>,
    pub trace_id: String,
}

pub struct QueryResponseView {
    pub answer: Seq<char>,
    pub sources: Seq<QuerySourceView>,
    pub degraded: bool,
    pub error_code: Option<Seq<char>>,
    pub trace_id: Seq<char>,
}

impl View for QueryResponse {
    type V = QueryResponseView;

    open spec fn view(&self) -> QueryResponseView {
        QueryResponseView {
            answer: self.answer@,
            sources: sources_view(self.sources@),
            degraded: self.degraded,
            error_code: match self.error_code {
                Some(c) => Some(c@),
                None => None,
            },
            trace_id: self.trace_id@,
        }
    }
}

pub open spec fn no_match_response(trace_id: Seq<char>) -> QueryResponseView {
    QueryResponseView {
        answer: NO_MATCH_ANSWER@,
        sources: Seq::empty(),
        degraded: true,
        error_code: Some(ErrorCode::NoMatch.spec_name()),
        trace_id,
    }
}

pub open spec fn degraded_answer(code: ErrorCode) -> Seq<char> {
    "服务暂时不可用："@ + description_of(code) + "。"@
}

pub open spec fn degraded_response(
    trace_id: Seq<char>,
    code: ErrorCode,
    sources: Seq<QuerySourceView>,
) -> QueryResponseView {
    QueryResponseView {
        answer: degraded_answer(code),
        sources,
        degraded: true,
        error_code: Some(code.spec_name()),
        trace_id,
    }
}

pub open spec fn source_line(s: QuerySourceView) -> Seq<char> {
    "- ["@ + s.title + "] "@ + s.path
}

/// One line per source, separated by newlines.
pub open spec fn source_lines(sources: Seq<QuerySourceView>) -> Seq<char>
    decreases sources.len(),
{
    if sources.len() == 0 {
        Seq::empty()
    } else if sources.len() == 1 {
        source_line(sources[0])
    } else {
        source_lines(sources.drop_last()) + "\n"@ + source_line(sources.last())
    }
}

/// The body that names the retrieved documents for the reader to consult.
pub open spec fn sources_text(sources: Seq<QuerySourceView>) -> Seq<char> {
    if sources.len() == 0 {
        "没有找到相关的参考文档。"@
    } else {
        "以下是一些相关的参考文档，您可以自行查阅：\n"@ + source_lines(sources)
    }
}

pub open spec fn degraded_with_sources_answer(code: ErrorCode, sources: Seq<QuerySourceView>) -> Seq<
    char,
> {
    "AI 生成服务暂时不可用："@ + description_of(code) + "。\n\n"@ + sources_text(sources)
}

pub open spec fn degraded_with_sources_response(
    trace_id: Seq<char>,
    code: ErrorCode,
    sources: Seq<QuerySourceView>,
) -> QueryResponseView {
    QueryResponseView {
        answer: degraded_with_sources_answer(code, sources),
        sources,
        degraded: true,
        error_code: Some(code.spec_name()),
        trace_id,
    }
}

pub fn build_no_match_response(trace_id: &str) -> (r: QueryResponse)
    ensures
        r@ == no_match_response(trace_id@),
{
    let r = QueryResponse {
        answer: String::from_str(NO_MATCH_ANSWER),
        sources: Vec::new(),
        degraded: true,
        error_code: Some(ErrorCode::NoMatch.to_string()),
        trace_id: String::from_str(trace_id),
    };
    proof {
        assert(sources_view(r.sources@) =~= Seq::<QuerySourceView>::empty());
        assert(r@ =~= no_match_response(trace_id@));
    }
    r
}

pub fn build_degraded_response(trace_id: &str, error_code: ErrorCode, sources: Vec<QuerySource>) -> (r:
    QueryResponse)
    ensures
        r@ == degraded_response(trace_id@, error_code, sources_view(sources@)),
{
    let mut answer = String::from_str("服务暂时不可用：");
    answer.append(get_error_description(error_code));
    answer.append("。");
    QueryResponse {
        answer,
        sources,
        degraded: true,
        error_code: Some(error_code.to_string()),
        trace_id: String::from_str(trace_id),
    }
}

fn build_source_lines(sources: &Vec<QuerySource>) -> (r: String)
    ensures
        r@ == source_lines(sources_view(sources@)),
{
    let ghost sv = sources_view(sources@);
    let mut r = String::new();
    let mut i: usize = 0;
    while i < sources.len()
        invariant
            i <= sources.len(),
            sv == sources_view(sources@),
            r@ == source_lines(sv.take(i as int)),
        decreases sources.len() - i,
    {
        let s = &sources[i];
        proof {
            assert(sv.take(i + 1).drop_last() =~= sv.take(i as int));
            assert(sv.take(i + 1).last() == s@);
        }
        if i > 0 {
            r.append("\n");
        }
        r.append("- [");
        r.append(s.title.as_str());
        r.append("] ");
        r.append(s.path.as_str());
        proof {
            if i == 0 {
                assert(sv.take(1)[0] == s@);
            }
            assert(r@ =~= source_lines(sv.take(i + 1)));
        }
        i = i + 1;
    }
    proof {
        assert(sv.take(sources.len() as int) =~= sv);
    }
    r
}

pub fn build_degraded_with_sources_response(
    trace_id: &str,
    error_code: ErrorCode,
    sources: Vec<QuerySource>,
) -> (r: QueryResponse)
    ensures
        r@ == degraded_with_sources_response(trace_id@, error_code, sources_view(sources@)),
{
    let mut answer = String::from_str("AI 生成服务暂时不可用：");
    answer.append(get_error_description(error_code));
    answer.append("。\n\n");
    if sources.len() == 0 {
        answer.append("没有找到相关的参考文档。");
    } else {
        answer.append("以下是一些相关的参考文档，您可以自行查阅：\n");
        let lines = build_source_lines(&sources);
        answer.append(lines.as_str());
    }
    proof {
        assert(answer@ =~= degraded_with_sources_answer(error_code, sources_view(sources@)));
    }
    QueryResponse {
        answer,
        sources,
        degraded: true,
        error_code: Some(error_code.to_string()),
        trace_id: String::from_str(trace_id),
    }
}

/// The response when embedding the question failed: degraded under the
/// failure's code, with no sources, since nothing was retrieved.
pub fn respond_to_embed_failure(trace_id: &str, error: &ProviderError) -> (r: QueryResponse)
    ensures
        r@ == degraded_response(trace_id@, provider_error_class(*error), Seq::empty()),
{
    let code = map_provider_error(error);
    let r = build_degraded_response(trace_id, code, Vec::new());
    proof {
        assert(sources_view(Seq::<QuerySource>::empty()) =~= Seq::<QuerySourceView>::empty());
    }
    r
}

/// The step after retrieval: go on with the passages when there are any;
/// otherwise answer at once, with "no match" for an empty result and a
/// retrieval failure for a store error or hits that all fell below the
/// threshold.
pub fn respond_to_retrieval(
    trace_id: &str,
    outcome: Result<Vec<RetrievedChunk>, RetrieverError>,
) -> (r: Result<Vec<RetrievedChunk>, QueryResponse>)
    ensures
        match outcome {
            Ok(chunks) => if chunks@.len() > 0 {
                r == Ok::<Vec<RetrievedChunk>, QueryResponse>(chunks)
            } else {
                r is Err && r->Err_0@ == no_match_response(trace_id@)
            },
            Err(_) => r is Err && r->Err_0@ == degraded_response(
                trace_id@,
                ErrorCode::RetrievalFailed,
                Seq::empty(),
            ),
        },
{
    match outcome {
        Ok(chunks) => {
            if chunks.len() > 0 {
                Ok(chunks)
            } else {
                Err(build_no_match_response(trace_id))
            }
        },
        Err(_) => {
            let r = build_degraded_response(trace_id, ErrorCode::RetrievalFailed, Vec::new());
            proof {
                assert(sources_view(Seq::<QuerySource>::empty()) =~= Seq::<QuerySourceView>::empty());
            }
            Err(r)
        },
    }
}

/// The response after generation: the answer with its passages as sources;
/// or, when generation failed, a degraded answer that lists the retrieved
/// documents if the failure's code calls for it, and a plain degraded answer
/// without sources otherwise.
pub fn respond_to_generation(
    trace_id: &str,
    chunks: &Vec<RetrievedChunk>,
    outcome: Result<String, ProviderError>,
) -> (r: QueryResponse)
    ensures
        match outcome {
            Ok(answer) => r@ == (QueryResponseView {
                answer: answer@,
                sources: sources_of(passages_view(chunks@)),
                degraded: false,
                error_code: None,
                trace_id: trace_id@,
            }),
            Err(e) => if degrades(provider_error_class(e)) {
                r@ == degraded_with_sources_response(
                    trace_id@,
                    provider_error_class(e),
                    sources_of(passages_view(chunks@)),
                )
            } else {
                r@ == degraded_response(trace_id@, provider_error_class(e), Seq::empty())
            },
        },
{
    match outcome {
        Ok(answer) => QueryResponse {
            answer,
            sources: sources_from_chunks(chunks),
            degraded: false,
            error_code: None,
            trace_id: String::from_str(trace_id),
        },
        Err(e) => {
            let code = map_provider_error(&e);
            if should_degrade(code) {
                build_degraded_with_sources_response(trace_id, code, sources_from_chunks(chunks))
            } else {
                let r = build_degraded_response(trace_id, code, Vec::new());
                proof {
                    assert(sources_view(Seq::<QuerySource>::empty()) =~= Seq::<QuerySourceView>::empty());
                }
                r
            }
        },
    }
}

} // verus!
