use engineqa_backend::error_code::{get_error_description, map_status_code, should_degrade, ErrorCode};
use engineqa_backend::provider::{map_provider_error, ProviderError};
use reqwest::StatusCode;

#[test]
fn test_map_status_401() {
    assert_eq!(map_status_code(StatusCode::UNAUTHORIZED.as_u16()), ErrorCode::UpstreamAuth);
}

#[test]
fn test_map_status_429() {
    assert_eq!(map_status_code(StatusCode::TOO_MANY_REQUESTS.as_u16()), ErrorCode::UpstreamRateLimit);
}

#[test]
fn test_map_status_500() {
    assert_eq!(
        map_status_code(StatusCode::INTERNAL_SERVER_ERROR.as_u16()),
        ErrorCode::UpstreamUnavailable
    );
}

#[test]
fn test_map_status_504() {
    assert_eq!(map_status_code(StatusCode::GATEWAY_TIMEOUT.as_u16()), ErrorCode::UpstreamTimeout);
}

#[test]
fn test_error_code_as_str() {
    assert_eq!(ErrorCode::UpstreamTimeout.as_str(), "UPSTREAM_TIMEOUT");
    assert_eq!(ErrorCode::UpstreamRateLimit.as_str(), "UPSTREAM_RATE_LIMIT");
}

#[test]
fn test_should_degrade() {
    assert!(should_degrade(ErrorCode::UpstreamTimeout));
    assert!(should_degrade(ErrorCode::UpstreamRateLimit));
    assert!(should_degrade(ErrorCode::UpstreamAuth));
    assert!(should_degrade(ErrorCode::UpstreamUnavailable));
    assert!(!should_degrade(ErrorCode::NoMatch));
    assert!(!should_degrade(ErrorCode::RetrievalFailed));
}

#[test]
fn should_degrade_covers_every_code() {
    assert!(should_degrade(ErrorCode::UpstreamError));
    assert!(!should_degrade(ErrorCode::InternalError));
}

#[test]
fn status_table_holds() {
    assert_eq!(map_status_code(403), ErrorCode::UpstreamAuth);
    assert_eq!(map_status_code(408), ErrorCode::UpstreamTimeout);
    assert_eq!(map_status_code(502), ErrorCode::UpstreamUnavailable);
    assert_eq!(map_status_code(503), ErrorCode::UpstreamUnavailable);
    assert_eq!(map_status_code(404), ErrorCode::UpstreamError);
    assert_eq!(map_status_code(422), ErrorCode::UpstreamError);
    assert_eq!(map_status_code(501), ErrorCode::UpstreamUnavailable);
    assert_eq!(map_status_code(599), ErrorCode::UpstreamUnavailable);
    assert_eq!(map_status_code(302), ErrorCode::UpstreamError);
}

#[test]
fn provider_errors_are_classified() {
    let timeout = ProviderError::RequestError { is_timeout: true, is_connect: false, message: String::new() };
    let connect = ProviderError::RequestError { is_timeout: false, is_connect: true, message: String::new() };
    let other = ProviderError::RequestError { is_timeout: false, is_connect: false, message: String::new() };
    assert_eq!(map_provider_error(&timeout), ErrorCode::UpstreamTimeout);
    assert_eq!(map_provider_error(&connect), ErrorCode::UpstreamTimeout);
    assert_eq!(map_provider_error(&other), ErrorCode::UpstreamUnavailable);
    assert_eq!(
        map_provider_error(&ProviderError::ApiError { status: 429, message: String::new() }),
        ErrorCode::UpstreamRateLimit
    );
    assert_eq!(map_provider_error(&ProviderError::SerializationError(String::new())), ErrorCode::InternalError);
    assert_eq!(map_provider_error(&ProviderError::Timeout), ErrorCode::UpstreamTimeout);
}

#[test]
fn descriptions_are_fixed() {
    assert_eq!(get_error_description(ErrorCode::UpstreamUnavailable), "上游服务不可用，请稍后重试");
    assert_eq!(get_error_description(ErrorCode::NoMatch), "未找到相关资料，请尝试其他问题");
    assert_eq!(ErrorCode::NoMatch.to_string(), "NO_MATCH");
}
