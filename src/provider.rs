//! The upstream embedding and chat service: its failures, their
//! classification, and the retry policy.

use vstd::prelude::*;
use crate::error_code::{status_class, map_status_code, ErrorCode};

verus! {

/// Fixed delay unit between attempts, in milliseconds.
pub const RETRY_BASE_DELAY_MS: u64 = 500;

/// HTTP status used when an upstream answer carries no usable payload.
pub const UNPROCESSABLE_ENTITY: u16 = 422;

pub struct ChatMessage {
    pub role: String,
    pub content: String,
}

pub struct ChatChoice {
    pub message: ChatMessage,
}

pub struct ChatResponse {
    pub choices: Vec<ChatChoice>,
}

pub struct EmbeddingRequest {
    pub model: String,
    pub input: String,
}

/// How a call to the upstream service failed.
pub enum ProviderError {
    /// The request did not complete; the flags say whether it timed out or
    /// could not connect.
    RequestError { is_timeout: bool, is_connect: bool, message: String },
    /// The service answered with a non-success status.
    ApiError { status: u16, message: String },
    /// The answer could not be decoded.
    SerializationError(String),
    /// No answer came in time.
    Timeout,
}

/// Classification of an upstream failure into a business error code.
pub open spec fn provider_error_class(e: ProviderError) -> ErrorCode {
    match e {
        ProviderError::RequestError { is_timeout, is_connect, .. } => {
            if is_timeout || is_connect {
                ErrorCode::UpstreamTimeout
            } else {
                ErrorCode::UpstreamUnavailable
            }
        },
        ProviderError::ApiError { status, .. } => status_class(status),
        ProviderError::SerializationError(_) => ErrorCode::InternalError,
        ProviderError::Timeout => ErrorCode::UpstreamTimeout,
    }
}

pub fn map_provider_error(error: &ProviderError) -> (r: ErrorCode)
    ensures
        r == provider_error_class(*error),
{
    match error {
        ProviderError::RequestError { is_timeout, is_connect, .. } => {
            if *is_timeout || *is_connect {
                ErrorCode::UpstreamTimeout
            } else {
                ErrorCode::UpstreamUnavailable
            }
        },
        ProviderError::ApiError { status, .. } => map_status_code(*status),
        ProviderError::SerializationError(_) => ErrorCode::InternalError,
        ProviderError::Timeout => ErrorCode::UpstreamTimeout,
    }
}

/// What to do after an attempt of an upstream call.
pub enum RetryStep {
    /// Hand the attempt's outcome to the caller.
    Finish,
    /// Wait this many milliseconds, then try again.
    RetryAfter(u64),
}

/// After attempt `attempt` (counted from 0) of at most `max_retries + 1`: a
/// success finishes; a failure is retried after `base_delay_ms * (attempt + 1)`
/// while attempts remain, whatever its kind, and is handed back unchanged
/// once they are used up.
pub open spec fn retry_step_spec(attempt: nat, max_retries: nat, succeeded: bool, base_delay_ms: nat) -> RetryStep {
    if succeeded || attempt >= max_retries {
        RetryStep::Finish
    } else {
        RetryStep::RetryAfter((base_delay_ms * (attempt + 1)) as u64)
    }
}

pub fn retry_step(attempt: u32, max_retries: u32, succeeded: bool, base_delay_ms: u64) -> (r: RetryStep)
    requires
        base_delay_ms * (attempt + 1) <= u64::MAX,
    ensures
        r == retry_step_spec(attempt as nat, max_retries as nat, succeeded, base_delay_ms as nat),
{
    if succeeded || attempt >= max_retries {
        RetryStep::Finish
    } else {
        RetryStep::RetryAfter(base_delay_ms * (attempt as u64 + 1))
    }
}

/// `s` without the `/` characters at its end.
pub open spec fn trim_trailing_slashes(s: Seq<char>) -> Seq<char>
    decreases s.len(),
{
    if s.len() > 0 && s.last() == '/' {
        trim_trailing_slashes(s.drop_last())
    } else {
        s
    }
}

/// The endpoint URL: the base without trailing slashes, followed by the path.
pub fn endpoint_url(base_url: &str, path: &str) -> (r: String)
    ensures
        r@ == trim_trailing_slashes(base_url@) + path@,
{
    let chars = crate::text::chars_of(base_url);
    let mut end: usize = chars.len();
    assert(chars@.take(chars.len() as int) =~= chars@);
    while end > 0 && chars[end - 1] == '/'
        invariant
            end <= chars.len(),
            trim_trailing_slashes(chars@.take(end as int)) == trim_trailing_slashes(chars@),
        decreases end,
    {
        proof {
            assert(chars@.take(end as int).drop_last() =~= chars@.take(end - 1));
        }
        end = end - 1;
    }
    proof {
        assert(trim_trailing_slashes(chars@.take(end as int)) == chars@.take(end as int));
    }
    let mut r = crate::text::collect_chars(&chars[0..end]);
    proof {
        assert(chars@.subrange(0, end as int) =~= chars@.take(end as int));
    }
    r.append(path);
    r
}

/// The content of the first choice of a chat answer, or an error when the
/// answer has none.
pub fn first_choice_content(response: &ChatResponse) -> (r: Result<String, ProviderError>)
    ensures
        response.choices@.len() > 0 ==> r is Ok && r->Ok_0@ == response.choices@[0].message.content@,
        response.choices@.len() == 0 ==> (r is Err && (r->Err_0 matches ProviderError::ApiError {
            status,
            ..
        } && status == UNPROCESSABLE_ENTITY)),
{
    if response.choices.len() > 0 {
        Ok(response.choices[0].message.content.clone())
    } else {
        Err(
            ProviderError::ApiError {
                status: UNPROCESSABLE_ENTITY,
                message: String::from_str("No chat response returned"),
            },
        )
    }
}

} // verus!
