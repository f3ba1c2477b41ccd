//! Business error codes, their wire names and descriptions, and the
//! classification of HTTP status codes.

use vstd::prelude::*;

verus! {

/// Business error codes that upstream and retrieval failures are classified into.
#[derive(Debug, Clone, Copy, PartialEq, Eq, Hash, Structural)]
pub enum ErrorCode {
    /// The upstream service did not answer in time.
    UpstreamTimeout,
    /// The upstream service is throttling requests.
    UpstreamRateLimit,
    /// The upstream service refused the credentials.
    UpstreamAuth,
    /// The upstream service is unavailable.
    UpstreamUnavailable,
    /// The upstream service answered with an error.
    UpstreamError,
    /// Retrieval from the vector store failed.
    RetrievalFailed,
    /// Nothing relevant was found.
    NoMatch,
    /// A local failure, such as a payload that could not be decoded.
    InternalError,
}

impl ErrorCode {
    /// The stable wire name of the code.
    pub open spec fn spec_name(self) -> Seq<char> {
        match self {
            ErrorCode::UpstreamTimeout => "UPSTREAM_TIMEOUT"@,
            ErrorCode::UpstreamRateLimit => "UPSTREAM_RATE_LIMIT"@,
            ErrorCode::UpstreamAuth => "UPSTREAM_AUTH"@,
            ErrorCode::UpstreamUnavailable => "UPSTREAM_UNAVAILABLE"@,
            ErrorCode::UpstreamError => "UPSTREAM_ERROR"@,
            ErrorCode::RetrievalFailed => "RETRIEVAL_FAILED"@,
            ErrorCode::NoMatch => "NO_MATCH"@,
            ErrorCode::InternalError => "INTERNAL_ERROR"@,
        }
    }

    pub fn as_str(&self) -> (r: &'static str)
        ensures
            r@ == self.spec_name(),
    {
        match self {
            ErrorCode::UpstreamTimeout => "UPSTREAM_TIMEOUT",
            ErrorCode::UpstreamRateLimit => "UPSTREAM_RATE_LIMIT",
            ErrorCode::UpstreamAuth => "UPSTREAM_AUTH",
            ErrorCode::UpstreamUnavailable => "UPSTREAM_UNAVAILABLE",
            ErrorCode::UpstreamError => "UPSTREAM_ERROR",
            ErrorCode::RetrievalFailed => "RETRIEVAL_FAILED",
            ErrorCode::NoMatch => "NO_MATCH",
            ErrorCode::InternalError => "INTERNAL_ERROR",
        }
    }

    /// The wire name as an owned string.
    pub fn to_string(&self) -> (r: String)
        ensures
            r@ == self.spec_name(),
    {
        String::from_str(self.as_str())
    }
}

/// The codes for which a failed generation falls back to showing sources.
pub open spec fn degrades(code: ErrorCode) -> bool {
    code == ErrorCode::UpstreamTimeout || code == ErrorCode::UpstreamRateLimit
        || code == ErrorCode::UpstreamAuth || code == ErrorCode::UpstreamUnavailable
        || code == ErrorCode::UpstreamError
}

pub fn should_degrade(code: ErrorCode) -> (r: bool)
    ensures
        r == degrades(code),
{
    match code {
        ErrorCode::UpstreamTimeout
        | ErrorCode::UpstreamRateLimit
        | ErrorCode::UpstreamAuth
        | ErrorCode::UpstreamUnavailable
        | ErrorCode::UpstreamError => true,
        ErrorCode::RetrievalFailed | ErrorCode::NoMatch | ErrorCode::InternalError => false,
    }
}

/// The user-facing text shown for each code in degraded answers.
pub open spec fn description_of(code: ErrorCode) -> Seq<char> {
    match code {
        ErrorCode::UpstreamTimeout => "上游服务响应超时，请稍后重试"@,
        ErrorCode::UpstreamRateLimit => "上游服务限流，请求过于频繁"@,
        ErrorCode::UpstreamAuth => "上游服务认证失败，请检查 API Token"@,
        ErrorCode::UpstreamUnavailable => "上游服务不可用，请稍后重试"@,
        ErrorCode::UpstreamError => "上游服务返回错误"@,
        ErrorCode::RetrievalFailed => "检索服务失败，请检查向量存储连接"@,
        ErrorCode::NoMatch => "未找到相关资料，请尝试其他问题"@,
        ErrorCode::InternalError => "内部服务错误，请联系技术团队"@,
    }
}

pub fn get_error_description(code: ErrorCode) -> (r: &'static str)
    ensures
        r@ == description_of(code),
{
    match code {
        ErrorCode::UpstreamTimeout => "上游服务响应超时，请稍后重试",
        ErrorCode::UpstreamRateLimit => "上游服务限流，请求过于频繁",
        ErrorCode::UpstreamAuth => "上游服务认证失败，请检查 API Token",
        ErrorCode::UpstreamUnavailable => "上游服务不可用，请稍后重试",
        ErrorCode::UpstreamError => "上游服务返回错误",
        ErrorCode::RetrievalFailed => "检索服务失败，请检查向量存储连接",
        ErrorCode::NoMatch => "未找到相关资料，请尝试其他问题",
        ErrorCode::InternalError => "内部服务错误，请联系技术团队",
    }
}

/// Classification of an HTTP status code, in the order of the table:
/// 401/403 auth, 429 rate limit, 408/504 timeout, 500/502/503 unavailable,
/// any other 4xx an upstream error, any other 5xx unavailable, and
/// anything else an upstream error.
pub open spec fn status_class(status: u16) -> ErrorCode {
    if status == 401 || status == 403 {
        ErrorCode::UpstreamAuth
    } else if status == 429 {
        ErrorCode::UpstreamRateLimit
    } else if status == 408 || status == 504 {
        ErrorCode::UpstreamTimeout
    } else if status == 500 || status == 502 || status == 503 {
        ErrorCode::UpstreamUnavailable
    } else if 400 <= status < 500 {
        ErrorCode::UpstreamError
    } else if 500 <= status < 600 {
        ErrorCode::UpstreamUnavailable
    } else {
        ErrorCode::UpstreamError
    }
}

pub fn map_status_code(status: u16) -> (r: ErrorCode)
    ensures
        r == status_class(status),
{
    match status {
        401 | 403 => ErrorCode::UpstreamAuth,
        429 => ErrorCode::UpstreamRateLimit,
        408 | 504 => ErrorCode::UpstreamTimeout,
        500 | 502 | 503 => ErrorCode::UpstreamUnavailable,
        _ => {
            if 400 <= status && status < 500 {
                ErrorCode::UpstreamError
            } else if 500 <= status && status < 600 {
                ErrorCode::UpstreamUnavailable
            } else {
                ErrorCode::UpstreamError
            }
        }
    }
}

} // verus!
